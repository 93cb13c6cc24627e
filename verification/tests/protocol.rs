use codex_foreman::client::{
    app_server_args, handle_message, initialize_params, initialized_notice, message_line,
    read_thread_start, read_turn_start, read_turn_steer, respond_to_server_request, retry_delay,
    steer_request, turn_request, Incoming, TextPayload,
};
use codex_foreman::json::Json;
use codex_foreman::json_text::{json_compact_value, json_pretty_value, parse_json};
use codex_foreman::protocol::{
    parse_thread_id, parse_turn_id, JSONRPCError, JSONRPCErrorError, JSONRPCMessage,
    JSONRPCNotification, JSONRPCRequest, JSONRPCResponse, RequestId,
};

fn json(text: &str) -> Json {
    parse_json(text).expect("valid JSON")
}

fn request(method: &str, params: Option<Json>) -> JSONRPCRequest {
    JSONRPCRequest { id: RequestId::Integer(7), method: method.to_string(), params }
}

#[test]
fn parse_thread_id_supports_strict_response_field() {
    assert_eq!(
        parse_thread_id(&json(r#"{"threadId": "thread-0192"}"#)),
        Some("thread-0192".into())
    );
    assert_eq!(
        parse_thread_id(&json(r#"{"thread": {"id": "0192"}}"#)),
        Some("0192".into())
    );
    assert_eq!(
        parse_thread_id(&json(r#"{"thread_id": "0192"}"#)),
        Some("0192".into())
    );
    assert_eq!(
        parse_thread_id(&json(r#"{"thread_id": 42}"#)),
        Some("42".into())
    );
    assert_eq!(
        parse_thread_id(&json(r#"{"conversationId":"conv-1"}"#)),
        Some("conv-1".into())
    );
    assert_eq!(
        parse_thread_id(&json(r#"{"msg":{"threadId":"thread-001"}}"#)),
        Some("thread-001".into())
    );
    assert_eq!(
        parse_thread_id(&json(r#"{"msg":{"thread":{"id":"thread-002"}}}"#)),
        Some("thread-002".into())
    );
    assert_eq!(
        parse_thread_id(&json(
            r#"{"msg":{"conversationId":"conv-3","thread":{"id":"thread-003"}}}"#
        )),
        Some("thread-003".into())
    );
    assert_eq!(
        parse_thread_id(&json(r#"{"result":{"thread":{"id":"thread-004"}}}"#)),
        Some("thread-004".into())
    );
}

#[test]
fn parse_turn_id_supports_strict_response_field() {
    assert_eq!(
        parse_turn_id(&json(r#"{"turnId": "turn-1"}"#)),
        Some("turn-1".into())
    );
    assert_eq!(
        parse_turn_id(&json(r#"{"turn": {"id": "turn-3"}}"#)),
        Some("turn-3".into())
    );
    assert_eq!(
        parse_turn_id(&json(r#"{"turn_id": "turn-1"}"#)),
        Some("turn-1".into())
    );
    assert_eq!(parse_turn_id(&json(r#"{"turn_id": 99}"#)), Some("99".into()));
    assert_eq!(
        parse_turn_id(&json(r#"{"msg":{"turnId":"turn-msg-1"}}"#)),
        Some("turn-msg-1".into())
    );
    assert_eq!(
        parse_turn_id(&json(r#"{"msg":{"turn":{"id":"turn-msg-2"}}}"#)),
        Some("turn-msg-2".into())
    );
    assert_eq!(
        parse_turn_id(&json(r#"{"msg":{"conversation":{"turn_id":"turn-msg-3"}}}"#)),
        Some("turn-msg-3".into())
    );
    assert_eq!(
        parse_turn_id(&json(r#"{"result":{"turn":{"id":"turn-result-1"}}}"#)),
        Some("turn-result-1".into())
    );
}

#[test]
fn identifiers_are_texts_or_numbers_only() {
    assert_eq!(parse_thread_id(&json(r#"{"thread_id": -3}"#)), Some("-3".into()));
    assert_eq!(parse_thread_id(&json(r#"{"thread_id": 1.5}"#)), Some("1.5".into()));
    assert_eq!(parse_thread_id(&json(r#"{"thread_id": true}"#)), None);
    assert_eq!(parse_thread_id(&json("[]")), None);
    assert_eq!(parse_turn_id(&json("null")), None);
}

#[test]
fn request_ids_are_random_uuids() {
    let a = RequestId::new();
    let b = RequestId::new();
    assert_ne!(a, b);
    assert_eq!(a.as_key().len(), 36);
    assert_eq!(a.as_key().as_bytes()[14], b'4');
    assert_eq!(RequestId::Integer(-5).as_key(), "-5");
    assert_eq!(RequestId::String("x".to_string()).as_key(), "x");
}

#[test]
fn known_server_requests_are_granted() {
    for method in [
        "item/commandExecution/requestApproval",
        "item/fileChange/requestApproval",
        "item/requestUserInput",
        "item/tool/requestUserInput",
    ] {
        match respond_to_server_request(request(method, None)) {
            JSONRPCMessage::Response(r) => {
                assert_eq!(r.id, RequestId::Integer(7));
                assert_eq!(json_compact_value(&r.result), r#"{"decision":"accept"}"#);
            }
            other => panic!("unexpected reply {:?}", other),
        }
    }
    match respond_to_server_request(request("item/tool/call", None)) {
        JSONRPCMessage::Response(r) => {
            assert_eq!(json_compact_value(&r.result), r#"{"content_items":[],"success":true}"#);
        }
        other => panic!("unexpected reply {:?}", other),
    }
}

#[test]
fn unknown_server_requests_are_refused() {
    let params = json(r#"{"threadId":"thread-9"}"#);
    match respond_to_server_request(request("item/unknown/request", Some(params))) {
        JSONRPCMessage::Error(e) => {
            assert_eq!(e.id, RequestId::Integer(7));
            assert_eq!(e.error.code, -32601);
            assert_eq!(e.error.message, "Request not handled by codex-foreman");
            assert_eq!(
                json_compact_value(&e.error.data.expect("data")),
                r#"{"method":"item/unknown/request","status":"unhandled","thread_id":"thread-9"}"#
            );
        }
        other => panic!("unexpected reply {:?}", other),
    }
}

#[test]
fn messages_go_where_they_belong() {
    match handle_message(JSONRPCMessage::Response(JSONRPCResponse {
        id: RequestId::String("r1".to_string()),
        result: Json::Bool(true),
    })) {
        Incoming::Complete { key, outcome } => {
            assert_eq!(key, "r1");
            assert!(matches!(outcome, Ok(Json::Bool(true))));
        }
        other => panic!("unexpected {:?}", other),
    }
    match handle_message(JSONRPCMessage::Error(JSONRPCError {
        id: RequestId::Integer(3),
        error: JSONRPCErrorError { code: -1, message: "injected error".to_string(), data: None },
    })) {
        Incoming::Complete { key, outcome } => {
            assert_eq!(key, "3");
            assert_eq!(outcome.expect_err("failed"), "injected error");
        }
        other => panic!("unexpected {:?}", other),
    }
    match handle_message(JSONRPCMessage::Notification(JSONRPCNotification {
        method: "turn/completed".to_string(),
        params: None,
    })) {
        Incoming::Notify(n) => {
            assert_eq!(n.method, "turn/completed");
            assert!(matches!(n.params, Json::Null));
        }
        other => panic!("unexpected {:?}", other),
    }
    assert!(matches!(
        handle_message(JSONRPCMessage::Request(request("item/tool/call", None))),
        Incoming::Reply(JSONRPCMessage::Response(_))
    ));
}

#[test]
fn answers_are_read_in_both_shapes() {
    assert_eq!(
        read_thread_start(&json(r#"{"thread_id":"thread-1"}"#)).expect("flat").thread_id,
        "thread-1"
    );
    assert_eq!(
        read_thread_start(&json(r#"{"thread":{"id":"thread-1"}}"#)).expect("nested").thread_id,
        "thread-1"
    );
    assert_eq!(
        read_turn_start(&json(r#"{"turn":{"id":"turn-1"}}"#)).expect("nested").turn_id,
        "turn-1"
    );
    let steer = read_turn_steer(&json(r#"{"turn":{"id":"turn-2","expected_turn_id":"turn-1"}}"#))
        .expect("nested");
    assert_eq!(steer.turn_id, "turn-2");
    assert_eq!(steer.expected_turn_id, Some("turn-1".to_string()));
    let e = read_turn_start(&json("{}")).expect_err("no turn");
    assert_eq!(e.message(), "failed to deserialize app-server response payload");
    assert!(read_thread_start(&json("{}")).is_err());
    assert!(read_turn_steer(&json("{}")).is_err());
}

#[test]
fn requests_carry_one_text() {
    let r = turn_request("thread-1", "first input");
    assert_eq!(r.thread_id, "thread-1");
    assert_eq!(r.input.len(), 1);
    assert_eq!(r.input[0].kind, "text");
    assert_eq!(r.input[0].text, "first input");
    let s = steer_request("thread-1", "turn-1", "steer");
    assert_eq!(s.expected_turn_id, "turn-1");
    assert_eq!(s.input[0].text, "steer");
    assert!(TextPayload::text("x".to_string()).text_elements.is_empty());
}

#[test]
fn lines_and_retries() {
    assert_eq!(message_line("  {\"a\":1} \n"), Some("{\"a\":1}".to_string()));
    assert_eq!(message_line(" \t\n"), None);
    assert_eq!(retry_delay(1), Some(250));
    assert_eq!(retry_delay(2), Some(250));
    assert_eq!(retry_delay(3), None);
    assert_eq!(
        json_compact_value(&initialize_params("0.1.0")),
        concat_init()
    );
}

fn concat_init() -> String {
    let mut s = String::from(r#"{"capabilities":{"experimentalApi":false},"#);
    s.push_str(r#""clientInfo":{"name":"codex-foreman","title":"Codex Foreman","version":"0.1.0"}}"#);
    s
}

#[test]
fn json_texts_are_read_and_written() {
    let value = json(r#"{"b":[1,-2,2.5,null,true],"a":"x"}"#);
    assert_eq!(json_compact_value(&value), r#"{"a":"x","b":[1,-2,2.5,null,true]}"#);
    assert_eq!(json_pretty_value(&json(r#"{"a":1}"#)), "{\n  \"a\": 1\n}");
    assert!(parse_json("{").is_none());
    assert!(parse_json("").is_none());
}

#[test]
fn the_app_server_is_started_with_overrides() {
    assert_eq!(app_server_args(&Vec::new()), vec!["app-server"]);
    let overrides = vec!["model=\"m\"".to_string(), "x=1".to_string()];
    assert_eq!(
        app_server_args(&overrides),
        vec!["app-server", "--config", "model=\"m\"", "--config", "x=1"]
    );
    match initialized_notice() {
        JSONRPCMessage::Notification(notice) => {
            assert_eq!(notice.method, "initialized");
            assert!(matches!(notice.params, Some(Json::Null)));
        }
        other => panic!("not a notification: {other:?}"),
    }
}

use codex_foreman::json::Json;
use codex_foreman::json_text::{json_compact_value, parse_json};
use codex_foreman::stub::{
    extract_prompt_text_from_input, has_stall_marker, parse_string_param, Reply, StubServer,
};

fn sent(server: &mut StubServer, line: &str) -> Vec<String> {
    match server.run_stub_server(line) {
        Reply::Messages(messages) => messages.iter().map(json_compact_value).collect(),
        other => panic!("no messages: {:?}", other),
    }
}

fn json(text: &str) -> Json {
    parse_json(text).expect("valid JSON")
}

#[test]
fn lines_that_are_no_requests_get_nothing() {
    let mut server = StubServer::new();
    assert!(matches!(server.run_stub_server("  "), Reply::Nothing));
    assert!(matches!(server.run_stub_server("{\"method\":\"initialized\"}"), Reply::Nothing));
    assert!(matches!(server.run_stub_server("{"), Reply::InvalidJson));
}

#[test]
fn requests_of_the_stub_are_answered() {
    let mut server = StubServer::new();
    assert_eq!(
        sent(&mut server, "{\"id\":1,\"method\":\"initialize\"}"),
        vec!["{\"id\":1,\"jsonrpc\":\"2.0\",\"result\":{}}"]
    );
    assert_eq!(
        sent(&mut server, "{\"id\":\"a\",\"method\":\"thread/start\",\"params\":{}}"),
        vec![
            "{\"id\":\"a\",\"jsonrpc\":\"2.0\",\"result\":{\"thread_id\":\"thread-0\"}}",
            "{\"jsonrpc\":\"2.0\",\"method\":\"thread/status/changed\",\
             \"params\":{\"status\":\"running\",\"thread_id\":\"thread-0\"}}",
        ]
    );
    assert!(sent(&mut server, "{\"id\":2,\"method\":\"thread/start\"}")[0].contains("thread-1"));
    assert_eq!(
        sent(&mut server, "{\"id\":3,\"method\":\"nope\"}"),
        vec![
            "{\"error\":{\"code\":-32601,\"message\":\"unsupported method: nope\"},\
             \"id\":3,\"jsonrpc\":\"2.0\"}"
        ]
    );
    let list = sent(&mut server, "{\"id\":4,\"method\":\"model/list\"}");
    assert!(list[0].contains("gpt-5.3-codex-spark"));
}

#[test]
fn a_thread_stalls_once() {
    let mut server = StubServer::new();
    let start = "{\"id\":1,\"method\":\"turn/start\",\"params\":{\"threadId\":\"t\",\
                 \"input\":[{\"type\":\"text\",\"text\":\"STALL_ONCE_THEN_COMPLETE please\"}]}}";
    let first = sent(&mut server, start);
    assert_eq!(first.len(), 4);
    assert!(first[0].contains("\"turn_id\":\"turn-0\""));
    let second = sent(&mut server, start);
    assert_eq!(second.len(), 9);
    assert!(second[8].contains("turn/completed"));
    assert!(second[8].contains("worker complete"));
    let stop = "{\"id\":2,\"method\":\"turn/interrupt\",\"params\":{\"thread_id\":\"t\",\"turn_id\":\"turn-1\"}}";
    let stopped = sent(&mut server, stop);
    assert!(stopped[1].contains("turn/aborted"));
    assert_eq!(sent(&mut server, start).len(), 4);
    let steered = sent(
        &mut server,
        "{\"id\":3,\"method\":\"turn/steer\",\"params\":{\"thread_id\":\"t\",\"expectedTurnId\":\"turn-2\"}}",
    );
    assert_eq!(
        steered[0],
        "{\"id\":3,\"jsonrpc\":\"2.0\",\
         \"result\":{\"expected_turn_id\":\"turn-2\",\"turn_id\":\"turn-3\"}}"
    );
    assert_eq!(steered.len(), 4);
}

#[test]
fn prompts_and_parameters_are_read() {
    assert!(has_stall_marker("now STALL_ONCE_THEN_COMPLETE"));
    assert!(!has_stall_marker("stall_once_then_complete"));
    assert_eq!(
        parse_string_param(&json("{\"thread_id\":\"x\"}"), "thread"),
        Some("x".to_string())
    );
    assert_eq!(parse_string_param(&json("{\"turnId\":7}"), "turn"), Some("7".to_string()));
    assert_eq!(parse_string_param(&json("{}"), "turn"), None);
    assert_eq!(
        extract_prompt_text_from_input(&json(
            "[{\"text\":\"a\"},{\"content\":[{\"text\":\"b\"}]},{\"x\":1}]"
        )),
        "a b"
    );
}

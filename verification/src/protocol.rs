//! Messages to and from the app server.
use vstd::prelude::*;

use crate::ids;
use crate::ids::{id_text, new_id};
use crate::json;
use crate::json::{get_in, Json, JsonNumber};
use crate::json_search;
use crate::text;
use crate::text_search::{decimal_int_text, decimal_text};

verus! {

/// What tells a request from others.
#[derive(Debug, Clone, PartialEq, Eq)]
pub enum RequestId {
    String(String),
    Integer(i64),
}

/// The text of a request's identifier.
pub open spec fn request_key(id: RequestId) -> Seq<char> {
    match id {
        RequestId::String(s) => s@,
        RequestId::Integer(i) => text::decimal_int(i as int),
    }
}

impl RequestId {
    /// A random identifier, as the text of a UUID.
    pub fn new() -> (r: Self)
        ensures
            r is String,
            exists|id: u128| #[trigger] ids::uuid_text(id) == request_key(r),
    {
        let id = new_id();
        RequestId::String(id_text(id))
    }

    /// The text of the identifier.
    pub fn as_key(&self) -> (r: String)
        ensures
            r@ == request_key(*self),
    {
        match self {
            RequestId::String(s) => s.clone(),
            RequestId::Integer(i) => decimal_int_text(*i),
        }
    }
}

/// A message of either side.
#[derive(Debug, Clone)]
pub enum JSONRPCMessage {
    Request(JSONRPCRequest),
    Notification(JSONRPCNotification),
    Response(JSONRPCResponse),
    Error(JSONRPCError),
}

/// Asks for an answer.
#[derive(Debug, Clone)]
pub struct JSONRPCRequest {
    pub id: RequestId,
    pub method: String,
    pub params: Option<Json>,
}

/// Tells something.
#[derive(Debug, Clone)]
pub struct JSONRPCNotification {
    pub method: String,
    pub params: Option<Json>,
}

/// Answers a request.
#[derive(Debug, Clone)]
pub struct JSONRPCResponse {
    pub id: RequestId,
    pub result: Json,
}

/// Says that a request failed.
#[derive(Debug, Clone)]
pub struct JSONRPCError {
    pub id: RequestId,
    pub error: JSONRPCErrorError,
}

/// Why a request failed.
#[derive(Debug, Clone)]
pub struct JSONRPCErrorError {
    pub code: i64,
    pub message: String,
    pub data: Option<Json>,
}

/// The text of a number.
pub open spec fn number_text(n: json::NumberView) -> Seq<char> {
    match n {
        json::NumberView::Whole(i) => text::decimal_int(i),
        json::NumberView::Real { text, magnitude } => text,
    }
}

/// The identifier that a value is: a text or a number.
pub open spec fn id_of(value: Option<json::JsonView>) -> Option<Seq<char>> {
    match value {
        Some(json::JsonView::Text(s)) => Some(s),
        Some(json::JsonView::Number(n)) => Some(number_text(n)),
        _ => None,
    }
}

/// The identifier under the first of `keys` that has one.
pub open spec fn id_under(value: Option<json::JsonView>, keys: Seq<Seq<char>>) -> Option<Seq<char>>
    decreases keys.len(),
{
    if keys.len() == 0 {
        None
    } else {
        json::either(
            id_under(value, keys.drop_last()),
            id_of(json::inner(value, keys.last())),
        )
    }
}

/// The keys of a thread's identifier.
pub open spec fn thread_keys() -> Seq<Seq<char>> {
    seq!["threadId"@, "thread_id"@]
}

/// The keys of a conversation's identifier.
pub open spec fn conversation_keys() -> Seq<Seq<char>> {
    seq!["conversationId"@, "conversation_id"@]
}

/// The keys of an identifier inside a thread.
pub open spec fn inside_thread_keys() -> Seq<Seq<char>> {
    seq!["id"@, "threadId"@, "thread_id"@]
}

/// The keys of an identifier inside a conversation.
pub open spec fn inside_conversation_keys() -> Seq<Seq<char>> {
    seq!["threadId"@, "thread_id"@, "id"@, "conversationId"@, "conversation_id"@]
}

/// The keys of a turn's identifier.
pub open spec fn turn_keys() -> Seq<Seq<char>> {
    seq!["turnId"@, "turn_id"@]
}

/// The keys of an identifier inside a turn.
pub open spec fn inside_turn_keys() -> Seq<Seq<char>> {
    seq!["id"@, "turnId"@, "turn_id"@]
}

/// The identifier of the thread of a conversation.
pub open spec fn conversation_thread(value: Option<json::JsonView>) -> Option<Seq<char>> {
    let conversation = json::inner(value, "conversation"@);
    json::either(
        id_under(conversation, inside_conversation_keys()),
        id_under(json::inner(conversation, "thread"@), inside_thread_keys()),
    )
}

/// The identifier of the thread of a nested message: its own before that of its thread, and that
/// before the conversation's.
pub open spec fn message_thread(value: Option<json::JsonView>) -> Option<Seq<char>> {
    json::either(
        id_under(value, thread_keys()),
        json::either(
            id_under(json::inner(value, "thread"@), inside_thread_keys()),
            json::either(id_under(value, conversation_keys()), conversation_thread(value)),
        ),
    )
}

/// The identifier of the thread of an event.
pub open spec fn thread_of(params: json::JsonView) -> Option<Seq<char>> {
    let value = Some(params);
    json::either(
        id_under(value, thread_keys() + conversation_keys()),
        json::either(
            id_under(json::inner(value, "thread"@), inside_thread_keys()),
            json::either(
                conversation_thread(value),
                json::either(
                    message_thread(json::inner(value, "msg"@)),
                    message_thread(json::inner(value, "result"@)),
                ),
            ),
        ),
    )
}

/// The identifier of the turn of a nested message.
pub open spec fn message_turn(value: Option<json::JsonView>) -> Option<Seq<char>> {
    let conversation = json::inner(value, "conversation"@);
    json::either(
        id_under(value, turn_keys()),
        json::either(
            id_under(json::inner(value, "turn"@), inside_turn_keys()),
            json::either(
                id_under(conversation, turn_keys()),
                id_under(json::inner(conversation, "turn"@), inside_turn_keys()),
            ),
        ),
    )
}

/// The identifier of the turn of an event.
pub open spec fn turn_of(params: json::JsonView) -> Option<Seq<char>> {
    let value = Some(params);
    let thread = json::inner(value, "thread"@);
    let conversation = json::inner(value, "conversation"@);
    json::either(
        id_under(value, turn_keys()),
        json::either(
            message_turn(json::inner(value, "turn"@)),
            json::either(
                message_turn(value),
                json::either(
                    message_turn(json::inner(value, "result"@)),
                    json::either(
                        message_turn(json::inner(value, "msg"@)),
                        json::either(
                            json::either(
                                id_under(thread, turn_keys()),
                                message_turn(json::inner(thread, "msg"@)),
                            ),
                            json::either(
                                id_under(conversation, turn_keys()),
                                json::either(
                                    message_turn(json::inner(conversation, "turn"@)),
                                    message_turn(json::inner(conversation, "msg"@)),
                                ),
                            ),
                        ),
                    ),
                ),
            ),
        ),
    )
}

/// The identifier that a value is.
fn extract_id(value: Option<&Json>) -> (r: Option<String>)
    ensures
        text::opt_text(r) == id_of(json::behind(value)),
{
    match value {
        Some(Json::Text(s)) => Some(s.clone()),
        Some(Json::Number(JsonNumber::Unsigned(n))) => Some(decimal_text(*n as u128)),
        Some(Json::Number(JsonNumber::Negative(n))) => Some(decimal_int_text(*n)),
        Some(Json::Number(JsonNumber::Real(x))) => Some(x.text.clone()),
        _ => None,
    }
}

/// The identifier under the first of `keys` that has one.
pub fn parse_id_field(value: Option<&Json>, keys: &Vec<&str>) -> (r: Option<String>)
    ensures
        text::opt_text(r) == id_under(json::behind(value), json_search::key_texts(keys@)),
{
    let mut found: Option<String> = None;
    let mut i: usize = 0;
    while i < keys.len()
        invariant
            i <= keys@.len(),
            text::opt_text(found) == id_under(
                json::behind(value),
                json_search::key_texts(keys@.take(i as int)),
            ),
        decreases keys@.len() - i,
    {
        proof {
            let part = json_search::key_texts(keys@.take(i + 1));
            assert(part.drop_last() == json_search::key_texts(keys@.take(i as int)));
            assert(part.last() == keys@[i as int]@);
        }
        if found.is_none() {
            found = extract_id(get_in(value, keys[i]));
        }
        i += 1;
    }
    assert(keys@.take(keys@.len() as int) == keys@);
    found
}

fn thread_key_field(value: Option<&Json>) -> (r: Option<String>)
    ensures
        text::opt_text(r) == id_under(json::behind(value), thread_keys()),
{
    let keys: Vec<&str> = vec!["threadId", "thread_id"];
    assert(json_search::key_texts(keys@) == thread_keys());
    parse_id_field(value, &keys)
}

fn conversation_key_field(value: Option<&Json>) -> (r: Option<String>)
    ensures
        text::opt_text(r) == id_under(json::behind(value), conversation_keys()),
{
    let keys: Vec<&str> = vec!["conversationId", "conversation_id"];
    assert(json_search::key_texts(keys@) == conversation_keys());
    parse_id_field(value, &keys)
}

fn inside_thread_field(value: Option<&Json>) -> (r: Option<String>)
    ensures
        text::opt_text(r) == id_under(json::behind(value), inside_thread_keys()),
{
    let keys: Vec<&str> = vec!["id", "threadId", "thread_id"];
    assert(json_search::key_texts(keys@) == inside_thread_keys());
    parse_id_field(value, &keys)
}

fn turn_key_field(value: Option<&Json>) -> (r: Option<String>)
    ensures
        text::opt_text(r) == id_under(json::behind(value), turn_keys()),
{
    let keys: Vec<&str> = vec!["turnId", "turn_id"];
    assert(json_search::key_texts(keys@) == turn_keys());
    parse_id_field(value, &keys)
}

fn inside_turn_field(value: Option<&Json>) -> (r: Option<String>)
    ensures
        text::opt_text(r) == id_under(json::behind(value), inside_turn_keys()),
{
    let keys: Vec<&str> = vec!["id", "turnId", "turn_id"];
    assert(json_search::key_texts(keys@) == inside_turn_keys());
    parse_id_field(value, &keys)
}

fn parse_conversation_thread(value: Option<&Json>) -> (r: Option<String>)
    ensures
        text::opt_text(r) == conversation_thread(json::behind(value)),
{
    let conversation = get_in(value, "conversation");
    let keys: Vec<&str> =
        vec!["threadId", "thread_id", "id", "conversationId", "conversation_id"];
    assert(json_search::key_texts(keys@) == inside_conversation_keys());
    let own = parse_id_field(conversation, &keys);
    if own.is_some() {
        return own;
    }
    inside_thread_field(get_in(conversation, "thread"))
}

/// The identifier of the thread of a nested message.
fn parse_thread_id_from_message(value: Option<&Json>) -> (r: Option<String>)
    ensures
        text::opt_text(r) == message_thread(json::behind(value)),
{
    let a = thread_key_field(value);
    if a.is_some() {
        return a;
    }
    let b = inside_thread_field(get_in(value, "thread"));
    if b.is_some() {
        return b;
    }
    let c = conversation_key_field(value);
    if c.is_some() {
        return c;
    }
    parse_conversation_thread(value)
}

/// The identifier of the turn of a nested message.
fn parse_turn_id_from_message(value: Option<&Json>) -> (r: Option<String>)
    ensures
        text::opt_text(r) == message_turn(json::behind(value)),
{
    let a = turn_key_field(value);
    if a.is_some() {
        return a;
    }
    let b = inside_turn_field(get_in(value, "turn"));
    if b.is_some() {
        return b;
    }
    let conversation = get_in(value, "conversation");
    let c = turn_key_field(conversation);
    if c.is_some() {
        return c;
    }
    inside_turn_field(get_in(conversation, "turn"))
}

/// The identifier of the thread of an event.
pub fn parse_thread_id(params: &Json) -> (r: Option<String>)
    ensures
        text::opt_text(r) == thread_of(params@),
{
    let value = Some(params);
    let keys: Vec<&str> = vec!["threadId", "thread_id", "conversationId", "conversation_id"];
    assert(json_search::key_texts(keys@) == thread_keys() + conversation_keys());
    let a = parse_id_field(value, &keys);
    if a.is_some() {
        return a;
    }
    let b = inside_thread_field(get_in(value, "thread"));
    if b.is_some() {
        return b;
    }
    let c = parse_conversation_thread(value);
    if c.is_some() {
        return c;
    }
    let d = parse_thread_id_from_message(get_in(value, "msg"));
    if d.is_some() {
        return d;
    }
    parse_thread_id_from_message(get_in(value, "result"))
}

/// The identifier of the turn of an event.
pub fn parse_turn_id(params: &Json) -> (r: Option<String>)
    ensures
        text::opt_text(r) == turn_of(params@),
{
    let value = Some(params);
    let a = turn_key_field(value);
    if a.is_some() {
        return a;
    }
    let b = parse_turn_id_from_message(get_in(value, "turn"));
    if b.is_some() {
        return b;
    }
    let c = parse_turn_id_from_message(value);
    if c.is_some() {
        return c;
    }
    let d = parse_turn_id_from_message(get_in(value, "result"));
    if d.is_some() {
        return d;
    }
    let e = parse_turn_id_from_message(get_in(value, "msg"));
    if e.is_some() {
        return e;
    }
    let thread = get_in(value, "thread");
    let f = turn_key_field(thread);
    if f.is_some() {
        return f;
    }
    let g = parse_turn_id_from_message(get_in(thread, "msg"));
    if g.is_some() {
        return g;
    }
    let conversation = get_in(value, "conversation");
    let h = turn_key_field(conversation);
    if h.is_some() {
        return h;
    }
    let i = parse_turn_id_from_message(get_in(conversation, "turn"));
    if i.is_some() {
        return i;
    }
    parse_turn_id_from_message(get_in(conversation, "msg"))
}

/// The key of a request is its text, or its number written out.
pub proof fn law_requests_are_known_by_their_key(n: i64, s: String)
    ensures
        request_key(RequestId::String(s)) == s@,
        n >= 0 ==> request_key(RequestId::Integer(n)) == text::decimal(n as nat),
        n < 0 ==> request_key(RequestId::Integer(n)) == seq!['-'] + text::decimal((-n) as nat),
{
}

/// A thread and a turn that are named at the top of a message are its own, whatever else it names;
/// they may be given as texts or as numbers.
pub proof fn law_names_at_the_top_are_taken(params: json::JsonView, id: Seq<char>, n: u64)
    ensures
        json::member(params, "threadId"@) == Some(json::JsonView::Text(id)) ==> thread_of(params)
            == Some(id),
        json::member(params, "threadId"@) is None && json::member(params, "thread_id"@) == Some(
            json::JsonView::Text(id),
        ) ==> thread_of(params) == Some(id),
        json::member(params, "turnId"@) == Some(json::JsonView::Text(id)) ==> turn_of(params)
            == Some(id),
        json::member(params, "turnId"@) == Some(
            json::JsonView::Number(json::NumberView::Whole(n as int)),
        ) ==> turn_of(params) == Some(text::decimal(n as nat)),
        json::member(params, "turnId"@) is None && json::member(params, "turn_id"@) == Some(
            json::JsonView::Text(id),
        ) ==> turn_of(params) == Some(id),
{
    let v = Some(params);
    let t = turn_keys();
    assert(t.drop_last() == seq!["turnId"@]);
    assert(t.drop_last().drop_last() == Seq::<Seq<char>>::empty());
    assert(id_under(v, t.drop_last().drop_last()) is None);
    assert(id_under(v, t.drop_last()) == id_of(json::member(params, "turnId"@)));
    assert(id_under(v, t) == json::either(
        id_of(json::member(params, "turnId"@)),
        id_of(json::member(params, "turn_id"@)),
    ));
    let k = thread_keys() + conversation_keys();
    let k3 = k.drop_last();
    let k2 = k3.drop_last();
    let k1 = k2.drop_last();
    assert(k1 == seq!["threadId"@]);
    assert(k1.drop_last() == Seq::<Seq<char>>::empty());
    assert(k2.last() == "thread_id"@);
    assert(id_under(v, k1.drop_last()) is None);
    assert(id_under(v, k1) == id_of(json::member(params, "threadId"@)));
    assert(id_under(v, k2) == json::either(
        id_of(json::member(params, "threadId"@)),
        id_of(json::member(params, "thread_id"@)),
    ));
    if id_under(v, k2) is Some {
        assert(id_under(v, k3) == id_under(v, k2));
        assert(id_under(v, k) == id_under(v, k2));
    }
}

/// A thread or a turn that is only named inside of its own part of a message is known by the
/// identifier there; a message that is no object names neither.
pub proof fn law_names_inside_are_taken(params: json::JsonView, id: Seq<char>)
    ensures
        json::member(params, "threadId"@) is None && json::member(params, "thread_id"@) is None
            && json::member(params, "conversationId"@) is None && json::member(
            params,
            "conversation_id"@,
        ) is None && json::inner(json::member(params, "thread"@), "id"@) == Some(
            json::JsonView::Text(id),
        ) ==> thread_of(params) == Some(id),
        json::member(params, "turnId"@) is None && json::member(params, "turn_id"@) is None
            && json::member(params, "turn"@) == Some(
            json::JsonView::Object(seq![("id"@, json::JsonView::Text(id))]),
        ) ==> turn_of(params) == Some(id),
{
    let v = Some(params);
    let t = turn_keys();
    assert(t.drop_last() == seq!["turnId"@]);
    assert(t.drop_last().drop_last() == Seq::<Seq<char>>::empty());
    assert(id_under(v, t.drop_last().drop_last()) is None);
    assert(id_under(v, t.drop_last()) == id_of(json::member(params, "turnId"@)));
    let k = thread_keys() + conversation_keys();
    let k3 = k.drop_last();
    let k2 = k3.drop_last();
    let k1 = k2.drop_last();
    assert(k1.drop_last() == Seq::<Seq<char>>::empty());
    assert(k1.last() == "threadId"@ && k2.last() == "thread_id"@ && k3.last() == "conversationId"@
        && k.last() == "conversation_id"@);
    assert(id_under(v, k1.drop_last()) is None);
    let inside = json::member(params, "thread"@);
    lemma_first_key(inside, inside_thread_keys());
    if json::member(params, "threadId"@) is None && json::member(params, "thread_id"@) is None
        && json::member(params, "conversationId"@) is None && json::member(
        params,
        "conversation_id"@,
    ) is None && json::inner(inside, "id"@) == Some(json::JsonView::Text(id)) {
        lemma_no_key(v, k);
        assert(id_under(inside, inside_thread_keys()) == Some(id));
        assert(json::inner(v, "thread"@) == inside);
    }
    let items = seq![("id"@, json::JsonView::Text(id))];
    let turn = Some(json::JsonView::Object(items));
    if json::member(params, "turnId"@) is None && json::member(params, "turn_id"@) is None
        && json::member(params, "turn"@) == turn {
        reveal_strlit("id");
        reveal_strlit("turnId");
        reveal_strlit("turn_id");
        reveal_strlit("turn");
        reveal_strlit("conversation");
        assert("id"@.len() == 2 && "turnId"@.len() == 6 && "turn_id"@.len() == 7 && "turn"@.len()
            == 4 && "conversation"@.len() == 12);
        assert(items.skip(1) == Seq::<(Seq<char>, json::JsonView)>::empty());
        assert(json::entry_value(items.skip(1), "turnId"@) is None);
        assert(json::entry_value(items.skip(1), "turn_id"@) is None);
        assert(json::entry_value(items.skip(1), "turn"@) is None);
        assert(json::entry_value(items.skip(1), "conversation"@) is None);
        lemma_no_key(turn, turn_keys());
        lemma_no_key(json::inner(turn, "turn"@), inside_turn_keys());
        let none: Option<json::JsonView> = None;
        lemma_no_key(none, turn_keys());
        lemma_no_key(none, inside_turn_keys());
        assert(message_turn(turn) is None);
        assert(id_under(v, t) is None);
        lemma_first_key(turn, inside_turn_keys());
        assert(id_under(turn, inside_turn_keys()) == Some(id));
        assert(message_turn(v) == Some(id));
    }
}

proof fn lemma_no_key(value: Option<json::JsonView>, keys: Seq<Seq<char>>)
    requires
        forall|i: int| 0 <= i < keys.len() ==> json::inner(value, #[trigger] keys[i]) is None,
    ensures
        id_under(value, keys) is None,
    decreases keys.len(),
{
    if keys.len() > 0 {
        let rest = keys.drop_last();
        assert forall|i: int| 0 <= i < rest.len() implies json::inner(value, #[trigger] rest[i])
            is None by {
            assert(rest[i] == keys[i]);
        }
        lemma_no_key(value, rest);
        assert(json::inner(value, keys[keys.len() - 1]) is None);
    }
}

proof fn lemma_first_key(value: Option<json::JsonView>, keys: Seq<Seq<char>>)
    requires
        keys.len() > 0,
    ensures
        id_of(json::inner(value, keys[0])) is Some ==> id_under(value, keys) == id_of(
            json::inner(value, keys[0]),
        ),
    decreases keys.len(),
{
    if keys.len() > 1 {
        lemma_first_key(value, keys.drop_last());
    } else {
        assert(keys.drop_last() == Seq::<Seq<char>>::empty());
        assert(id_under(value, keys.drop_last()) is None);
    }
}

} // verus!

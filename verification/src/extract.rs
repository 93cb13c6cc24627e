//! What the parameters of an event say of an agent's work.
use vstd::prelude::*;

use crate::constants;
use crate::json;
use crate::json::{first_of, get_in, text_in, texts_in, Json};
use crate::text;
use crate::text::{same_text, trim, trims_to_empty};
use crate::text_search::eq_ignore_ascii_case;

verus! {

/// The item of an event, at the top or inside its message.
pub open spec fn item_of(params: json::JsonView) -> Option<json::JsonView> {
    json::either(
        json::member(params, "item"@),
        json::inner(json::member(params, "msg"@), "item"@),
    )
}

/// Whether a type is that of a message of the user.
pub open spec fn is_user_type(item_type: Option<Seq<char>>) -> bool {
    item_type matches Some(t) && (text::ascii_lower(t) == text::ascii_lower("usermessage"@) || t
        == "user_message"@)
}

/// Whether an item is the agent's: neither its role nor its type is the user's.
pub open spec fn is_agent_item(item: json::JsonView) -> bool {
    let role = json::text_of(json::member(item, "role"@));
    &&& !(role matches Some(r) && text::ascii_lower(r) == text::ascii_lower("user"@))
    &&& !is_user_type(json::text_of(json::member(item, "type"@)))
}

/// Whether an event's item is the agent's.
pub open spec fn has_agent_item(params: json::JsonView) -> bool {
    item_of(params) matches Some(item) && is_agent_item(item)
}

/// The text, unless it is blank.
pub open spec fn unless_blank(t: Option<Seq<char>>) -> Option<Seq<char>> {
    match t {
        Some(s) => if text::is_blank(s) {
            None
        } else {
            Some(s)
        },
        None => None,
    }
}

/// The value of the first of `keys` that the parameters have.
pub open spec fn first_member(params: json::JsonView, keys: Seq<Seq<char>>) -> Option<
    json::JsonView,
>
    decreases keys.len(),
{
    if keys.len() == 0 {
        None
    } else {
        json::either(first_member(params, keys.drop_last()), json::member(params, keys.last()))
    }
}

/// The text of the first of `keys` that the parameters have, unless it is blank.
pub open spec fn params_text(params: json::JsonView, keys: Seq<Seq<char>>) -> Option<Seq<char>> {
    unless_blank(json::text_of(first_member(params, keys)))
}

/// The texts of the parts of a message, one after the other.
pub open spec fn content_text(contents: Seq<json::JsonView>) -> Seq<char>
    decreases contents.len(),
{
    if contents.len() == 0 {
        Seq::empty()
    } else {
        let before = content_text(contents.drop_last());
        let part = contents.last();
        match json::text_of(
            json::either(json::member(part, "text"@), json::member(part, "message"@)),
        ) {
            Some(t) => before + t,
            None => before,
        }
    }
}

/// The text that an item has at its top.
pub open spec fn item_own_text(item: json::JsonView) -> Option<Seq<char>> {
    json::either(
        json::text_of(json::member(item, "text"@)),
        json::either(
            json::text_of(json::member(item, "message"@)),
            json::either(
                json::text_of(json::member(item, "aggregatedOutput"@)),
                json::text_of(json::inner(json::member(item, "result"@), "text"@)),
            ),
        ),
    )
}

/// The text of an item: the one at its top, or that of its parts; none where it is blank.
pub open spec fn item_text(item: json::JsonView) -> Option<Seq<char>> {
    if item_own_text(item) is Some {
        unless_blank(item_own_text(item))
    } else {
        match json::member(item, "content"@) {
            Some(json::JsonView::List(contents)) => unless_blank(Some(content_text(contents))),
            _ => None,
        }
    }
}

/// The text of an optional item.
pub open spec fn opt_item_text(item: Option<json::JsonView>) -> Option<Seq<char>> {
    match item {
        Some(i) => item_text(i),
        None => None,
    }
}

/// The text of the last item that has one.
pub open spec fn last_item_text(items: Seq<json::JsonView>) -> Option<Seq<char>>
    decreases items.len(),
{
    if items.len() == 0 {
        None
    } else {
        json::either(item_text(items.last()), last_item_text(items.drop_last()))
    }
}

/// The keys under which a turn holds its text.
pub open spec fn turn_keys() -> Seq<Seq<char>> {
    seq!["last_agent_message"@, "message"@, "text"@, "result"@]
}

/// The keys under which a message holds its text.
pub open spec fn message_keys() -> Seq<Seq<char>> {
    seq!["text"@, "message"@, "delta"@, "snippet"@]
}

/// The text of a turn: its own, or that of its last item that has one.
pub open spec fn turn_text(turn: json::JsonView) -> Option<Seq<char>> {
    json::either(
        params_text(turn, turn_keys()),
        match json::member(turn, "items"@) {
            Some(json::JsonView::List(items)) => last_item_text(items),
            _ => None,
        },
    )
}

/// The turn of an event: at the top, inside its message, or else the parameters themselves.
pub open spec fn turn_of(params: json::JsonView) -> json::JsonView {
    match json::either(
        json::member(params, "turn"@),
        json::inner(json::member(params, "msg"@), "turn"@),
    ) {
        Some(turn) => turn,
        None => params,
    }
}

/// The text of the agent's work that an event carries.
pub open spec fn result_text(method: Seq<char>, params: json::JsonView) -> Option<Seq<char>> {
    if method == constants::EVENT_METHOD_TURN_COMPLETED@ {
        json::either(
            turn_text(turn_of(params)),
            json::either(
                params_text(params, seq!["last_agent_message"@, "text"@, "result"@]),
                opt_item_text(item_of(params)),
            ),
        )
    } else if method == constants::EVENT_METHOD_ITEM_AGENT_MESSAGE@ || method
        == constants::EVENT_METHOD_ITEM_AGENT_MESSAGE_DELTA@ {
        json::either(
            params_text(params, message_keys()),
            match json::member(params, "msg"@) {
                Some(msg) => params_text(msg, message_keys()),
                None => None,
            },
        )
    } else if method == constants::EVENT_METHOD_ITEM_COMPLETED@ {
        json::either(
            opt_item_text(item_of(params)),
            json::text_of(json::inner(json::member(params, "result"@), "aggregatedOutput"@)),
        )
    } else {
        None
    }
}

/// The summary that an event carries.
pub open spec fn summary_of(params: json::JsonView) -> Option<Seq<char>> {
    json::text_of(
        json::either(
            json::member(params, "summary"@),
            json::either(
                json::inner(json::member(params, "item"@), "summary"@),
                json::either(
                    json::inner(item_of(params), "summary"@),
                    json::inner(json::member(params, "result"@), "summary"@),
                ),
            ),
        ),
    )
}

/// The references that a value lists: the texts of a list, or one text; none where there is
/// nothing.
pub open spec fn references_in(value: Option<json::JsonView>) -> Option<Seq<Seq<char>>> {
    match value {
        Some(json::JsonView::List(items)) => if json::only_texts(items).len() == 0 {
            None
        } else {
            Some(json::only_texts(items))
        },
        Some(json::JsonView::Text(s)) => if text::is_blank(s) {
            None
        } else {
            Some(seq![text::trimmed(s)])
        },
        _ => None,
    }
}

/// The references that an event carries.
pub open spec fn references_of(params: json::JsonView) -> Option<Seq<Seq<char>>> {
    json::either(
        references_in(json::member(params, "references"@)),
        json::either(
            references_in(json::inner(json::member(params, "item"@), "references"@)),
            json::either(
                references_in(json::inner(item_of(params), "references"@)),
                references_in(json::inner(json::member(params, "result"@), "references"@)),
            ),
        ),
    )
}

/// The item of an event.
pub fn extract_item_payload(params: &Json) -> (r: Option<&Json>)
    ensures
        json::behind(r) == item_of(params@),
{
    first_of(params.get("item"), get_in(params.get("msg"), "item"))
}

/// Whether an item is the agent's.
pub fn is_agent_item_completion(item: &Json) -> (r: bool)
    ensures
        r == is_agent_item(item@),
{
    if let Some(role) = text_in(item.get("role")) {
        if eq_ignore_ascii_case(role.as_str(), "user") {
            return false;
        }
    }
    match text_in(item.get("type")) {
        Some(t) => !eq_ignore_ascii_case(t.as_str(), "usermessage") && !same_text(
            t.as_str(),
            "user_message",
        ),
        None => true,
    }
}

/// Whether an event's item is the agent's.
pub fn is_agent_item_completion_payload(params: &Json) -> (r: bool)
    ensures
        r == has_agent_item(params@),
{
    match extract_item_payload(params) {
        Some(item) => is_agent_item_completion(item),
        None => false,
    }
}

/// The text, unless it is blank.
fn drop_blank(t: Option<String>) -> (r: Option<String>)
    ensures
        text::opt_text(r) == unless_blank(text::opt_text(t)),
{
    match t {
        Some(s) => if trims_to_empty(s.as_str()) {
            None
        } else {
            Some(s)
        },
        None => None,
    }
}

/// The first of two texts that is present.
pub fn either_text(a: Option<String>, b: Option<String>) -> (r: Option<String>)
    ensures
        text::opt_text(r) == json::either(text::opt_text(a), text::opt_text(b)),
        r == json::either(a, b),
{
    if a.is_some() {
        a
    } else {
        b
    }
}

/// The text of the first of `keys` that the parameters have, unless it is blank.
pub fn extract_text_from_params(params: &Json, keys: &Vec<&str>) -> (r: Option<String>)
    ensures
        text::opt_text(r) == params_text(params@, crate::json_search::key_texts(keys@)),
{
    let mut found: Option<&Json> = None;
    let mut i: usize = 0;
    while i < keys.len()
        invariant
            i <= keys@.len(),
            json::behind(found) == first_member(
                params@,
                crate::json_search::key_texts(keys@.take(i as int)),
            ),
        decreases keys@.len() - i,
    {
        proof {
            let part = crate::json_search::key_texts(keys@.take(i + 1));
            assert(part.drop_last() == crate::json_search::key_texts(keys@.take(i as int)));
            assert(part.last() == keys@[i as int]@);
        }
        found = first_of(found, params.get(keys[i]));
        i += 1;
    }
    assert(keys@.take(keys@.len() as int) == keys@);
    drop_blank(text_in(found))
}

/// The texts of the parts of a message, one after the other.
fn join_contents(contents: &Vec<Json>) -> (r: String)
    ensures
        r@ == content_text(json::list_model(contents@)),
{
    let mut message = String::new();
    let mut i: usize = 0;
    while i < contents.len()
        invariant
            i <= contents@.len(),
            message@ == content_text(json::list_model(contents@.take(i as int))),
        decreases contents@.len() - i,
    {
        proof {
            assert(contents@.take(i + 1).drop_last() == contents@.take(i as int));
            let part = json::list_model(contents@.take(i + 1));
            assert(part.drop_last() == json::list_model(contents@.take(i as int)));
            assert(part.last() == contents@[i as int]@);
            assert(part.len() > 0);
        }
        let part = &contents[i];
        if let Some(t) = text_in(first_of(part.get("text"), part.get("message"))) {
            message.append(t.as_str());
        }
        i += 1;
    }
    assert(contents@.take(contents@.len() as int) == contents@);
    message
}

/// The text of an item.
pub fn extract_text_from_item(item: &Json) -> (r: Option<String>)
    ensures
        text::opt_text(r) == item_text(item@),
{
    let own = either_text(
        text_in(item.get("text")),
        either_text(
            text_in(item.get("message")),
            either_text(
                text_in(item.get("aggregatedOutput")),
                text_in(get_in(item.get("result"), "text")),
            ),
        ),
    );
    if own.is_some() {
        return drop_blank(own);
    }
    match item.get("content") {
        Some(Json::List(contents)) => drop_blank(Some(join_contents(contents))),
        _ => None,
    }
}

/// The text of an optional item.
fn text_from_opt_item(item: Option<&Json>) -> (r: Option<String>)
    ensures
        text::opt_text(r) == opt_item_text(json::behind(item)),
{
    match item {
        Some(i) => extract_text_from_item(i),
        None => None,
    }
}

/// The text of a turn.
pub fn extract_text_from_turn(turn: &Json) -> (r: Option<String>)
    ensures
        text::opt_text(r) == turn_text(turn@),
{
    let keys: Vec<&str> = vec!["last_agent_message", "message", "text", "result"];
    assert(crate::json_search::key_texts(keys@) == turn_keys());
    let own = extract_text_from_params(turn, &keys);
    if own.is_some() {
        return own;
    }
    match turn.get("items") {
        Some(Json::List(items)) => {
            let ghost model = json::list_model(items@);
            proof {
                json::lemma_list_model(items@);
            }
            let mut i: usize = items.len();
            assert(model.take(i as int) == model);
            while i > 0
                invariant
                    i <= items@.len(),
                    params_text(turn@, turn_keys()) is None,
                    json::member(turn@, "items"@) == Some(json::JsonView::List(model)),
                    model.len() == items@.len(),
                    forall|j: int| 0 <= j < items@.len() ==> #[trigger] model[j] == items@[j]@,
                    last_item_text(model) == last_item_text(model.take(i as int)),
                decreases i,
            {
                let found = extract_text_from_item(&items[i - 1]);
                proof {
                    assert(model.take(i as int).drop_last() == model.take(i - 1));
                    assert(model.take(i as int).last() == model[i - 1]);
                }
                if found.is_some() {
                    return found;
                }
                i -= 1;
            }
            None
        },
        _ => None,
    }
}

/// The text of the agent's work that an event carries.
pub fn extract_agent_result_text(method: &str, params: &Json) -> (r: Option<String>)
    ensures
        text::opt_text(r) == result_text(method@, params@),
{
    if same_text(method, constants::EVENT_METHOD_TURN_COMPLETED) {
        let turn = match first_of(params.get("turn"), get_in(params.get("msg"), "turn")) {
            Some(turn) => turn,
            None => params,
        };
        let keys: Vec<&str> = vec!["last_agent_message", "text", "result"];
        assert(crate::json_search::key_texts(keys@) == seq![
            "last_agent_message"@,
            "text"@,
            "result"@,
        ]);
        either_text(
            extract_text_from_turn(turn),
            either_text(
                extract_text_from_params(params, &keys),
                text_from_opt_item(extract_item_payload(params)),
            ),
        )
    } else if same_text(method, constants::EVENT_METHOD_ITEM_AGENT_MESSAGE) || same_text(
        method,
        constants::EVENT_METHOD_ITEM_AGENT_MESSAGE_DELTA,
    ) {
        let keys: Vec<&str> = vec!["text", "message", "delta", "snippet"];
        assert(crate::json_search::key_texts(keys@) == message_keys());
        let inside = match params.get("msg") {
            Some(msg) => extract_text_from_params(msg, &keys),
            None => None,
        };
        either_text(extract_text_from_params(params, &keys), inside)
    } else if same_text(method, constants::EVENT_METHOD_ITEM_COMPLETED) {
        either_text(
            text_from_opt_item(extract_item_payload(params)),
            text_in(get_in(params.get("result"), "aggregatedOutput")),
        )
    } else {
        None
    }
}

/// The summary that an event carries.
pub fn extract_result_summary(params: &Json) -> (r: Option<String>)
    ensures
        text::opt_text(r) == summary_of(params@),
{
    text_in(
        first_of(
            params.get("summary"),
            first_of(
                get_in(params.get("item"), "summary"),
                first_of(
                    get_in(extract_item_payload(params), "summary"),
                    get_in(params.get("result"), "summary"),
                ),
            ),
        ),
    )
}

/// The references that a value lists.
pub fn parse_references_value(value: Option<&Json>) -> (r: Option<Vec<String>>)
    ensures
        text::opt_texts(r) == references_in(json::behind(value)),
{
    match value {
        Some(Json::List(items)) => {
            let found = texts_in(items);
            assert(text::texts(found@).len() == found@.len());
            if found.len() == 0 {
                None
            } else {
                Some(found)
            }
        },
        Some(Json::Text(s)) => {
            if trims_to_empty(s.as_str()) {
                None
            } else {
                let mut one: Vec<String> = Vec::new();
                one.push(trim(s.as_str()));
                assert(text::texts(one@) == seq![text::trimmed(s@)]);
                Some(one)
            }
        },
        _ => None,
    }
}

/// The references that an event carries.
pub fn extract_result_references(params: &Json) -> (r: Option<Vec<String>>)
    ensures
        text::opt_texts(r) == references_of(params@),
{
    let a = parse_references_value(params.get("references"));
    if a.is_some() {
        return a;
    }
    let b = parse_references_value(get_in(params.get("item"), "references"));
    if b.is_some() {
        return b;
    }
    let c = parse_references_value(get_in(extract_item_payload(params), "references"));
    if c.is_some() {
        return c;
    }
    parse_references_value(get_in(params.get("result"), "references"))
}

/// The event with which a thread that reaches `status` ends its turn.
pub open spec fn completion_method(status: Seq<char>) -> Option<Seq<char>> {
    if status == constants::EVENT_STATUS_COMPLETED@ {
        Some(constants::EVENT_METHOD_TURN_COMPLETED@)
    } else if status == constants::EVENT_STATUS_ABORTED@ || status
        == constants::EVENT_STATUS_INTERRUPTED@ || status == constants::EVENT_STATUS_FAILED@
        || status == constants::EVENT_STATUS_ERROR@ || status == constants::EVENT_STATUS_STOPPED@
        || status == constants::EVENT_STATUS_TIMEOUT@ || status
        == constants::EVENT_STATUS_TIMED_OUT@ {
        Some(constants::EVENT_METHOD_TURN_ABORTED@)
    } else {
        None
    }
}

/// The event with which a thread that reaches `status` ends its turn.
pub fn completion_method_for_thread_status(status: &str) -> (r: Option<&'static str>)
    ensures
        r is Some == completion_method(status@) is Some,
        r matches Some(m) ==> Some(m@) == completion_method(status@),
{
    if same_text(status, constants::EVENT_STATUS_COMPLETED) {
        Some(constants::EVENT_METHOD_TURN_COMPLETED)
    } else if same_text(status, constants::EVENT_STATUS_ABORTED) || same_text(
        status,
        constants::EVENT_STATUS_INTERRUPTED,
    ) || same_text(status, constants::EVENT_STATUS_FAILED) || same_text(
        status,
        constants::EVENT_STATUS_ERROR,
    ) || same_text(status, constants::EVENT_STATUS_STOPPED) || same_text(
        status,
        constants::EVENT_STATUS_TIMEOUT,
    ) || same_text(status, constants::EVENT_STATUS_TIMED_OUT) {
        Some(constants::EVENT_METHOD_TURN_ABORTED)
    } else {
        None
    }
}

/// The text of a message is not blank.
pub proof fn lemma_message_text_is_not_blank(method: Seq<char>, params: json::JsonView)
    requires
        method == "item/agentMessage"@ || method == "item/agentMessage/delta"@,
    ensures
        result_text(method, params) matches Some(t) ==> !text::is_blank(t),
{
    reveal_strlit("turn/completed");
    reveal_strlit("item/agentMessage");
    reveal_strlit("item/agentMessage/delta");
    assert("turn/completed"@.len() == 14);
    assert("item/agentMessage"@.len() == 17);
    assert("item/agentMessage/delta"@.len() == 23);
}

/// A message of the user is never taken for one of the agent, whatever the case it is written in.
pub proof fn law_users_are_not_agents(item: json::JsonView)
    ensures
        json::text_of(json::member(item, "role"@)) == Some("user"@) ==> !is_agent_item(item),
        json::text_of(json::member(item, "type"@)) == Some("userMessage"@) ==> !is_agent_item(item),
        json::text_of(json::member(item, "type"@)) == Some("user_message"@) ==> !is_agent_item(item),
        json::text_of(json::member(item, "role"@)) is None && json::text_of(
            json::member(item, "type"@),
        ) is None ==> is_agent_item(item),
        json::text_of(json::member(item, "role"@)) is None && json::text_of(
            json::member(item, "type"@),
        ) == Some("agentMessage"@) ==> is_agent_item(item),
{
    reveal_strlit("userMessage");
    reveal_strlit("usermessage");
    reveal_strlit("user_message");
    reveal_strlit("agentMessage");
    assert(text::ascii_lower("userMessage"@) == text::ascii_lower("usermessage"@)) by {
        assert forall|i: int| 0 <= i < 11 implies text::ascii_lower("userMessage"@)[i]
            == text::ascii_lower("usermessage"@)[i] by {
            assert("userMessage"@[i] == "usermessage"@[i] || i == 4);
        }
    }
    assert("agentMessage"@.len() == 12 && "agentMessage"@[0] == 'a');
    assert("user_message"@[0] == 'u');
    assert(text::ascii_lower("agentMessage"@).len() == 12);
    assert(text::ascii_lower("usermessage"@).len() == 11);
}

/// An item stands under its name, at the top or in the message.
pub proof fn law_items_stand_at_the_top_or_in_the_message(params: json::JsonView)
    ensures
        json::member(params, "item"@) is Some ==> item_of(params) == json::member(params, "item"@),
        json::member(params, "item"@) is None && json::member(params, "msg"@) is Some ==> item_of(
            params,
        ) == json::member(json::member(params, "msg"@)->0, "item"@),
        json::member(params, "item"@) is None && json::member(params, "msg"@) is None ==> item_of(
            params,
        ) is None,
{
}

/// The text of an item is its own where it has one, else that of its parts, one behind the other;
/// a blank text counts as none.
pub proof fn law_items_say_their_own_text_first(item: json::JsonView, s: Seq<char>)
    requires
        !text::is_blank(s),
    ensures
        json::member(item, "text"@) == Some(json::JsonView::Text(s)) ==> item_text(item) == Some(s),
        json::member(item, "text"@) is None && json::member(item, "message"@) == Some(
            json::JsonView::Text(s),
        ) ==> item_text(item) == Some(s),
        json::member(item, "text"@) is None && json::member(item, "message"@) is None
            && json::member(item, "aggregatedOutput"@) == Some(json::JsonView::Text(s))
            ==> item_text(item) == Some(s),
        item_text(item) is Some ==> !text::is_blank(item_text(item)->0),
        unless_blank(Some(s)) == Some(s),
        unless_blank(None) is None,
{
}

/// The texts of the parts of a message follow each other, and a part without a text adds none.
pub proof fn law_parts_follow_each_other(
    contents: Seq<json::JsonView>,
    part: json::JsonView,
    s: Seq<char>,
)
    ensures
        content_text(Seq::<json::JsonView>::empty()).len() == 0,
        json::member(part, "text"@) == Some(json::JsonView::Text(s)) ==> content_text(
            contents.push(part),
        ) == content_text(contents) + s,
        json::member(part, "text"@) is None && json::member(part, "message"@) == Some(
            json::JsonView::Text(s),
        ) ==> content_text(contents.push(part)) == content_text(contents) + s,
        json::member(part, "text"@) is None && json::member(part, "message"@) is None
            ==> content_text(contents.push(part)) == content_text(contents),
{
    assert(contents.push(part).drop_last() == contents);
}

/// The last item that says anything gives the text of a turn that says nothing itself.
pub proof fn law_last_item_gives_the_text(items: Seq<json::JsonView>, item: json::JsonView)
    ensures
        item_text(item) is Some ==> last_item_text(items.push(item)) == item_text(item),
        item_text(item) is None ==> last_item_text(items.push(item)) == last_item_text(items),
        last_item_text(Seq::<json::JsonView>::empty()) is None,
{
    assert(items.push(item).drop_last() == items);
}

/// What a turn came to is its last message; what an item came to is the text of the item; other
/// events say nothing.
pub proof fn law_ended_work_gives_its_text(method: Seq<char>, params: json::JsonView, s: Seq<char>)
    requires
        !text::is_blank(s),
    ensures
        json::member(params, "turn"@) is None && json::member(params, "msg"@) is None
            && json::member(params, "last_agent_message"@) == Some(json::JsonView::Text(s))
            ==> result_text("turn/completed"@, params) == Some(s),
        json::member(params, "turn"@) is Some && json::member(
            json::member(params, "turn"@)->0,
            "last_agent_message"@,
        ) == Some(json::JsonView::Text(s)) ==> result_text("turn/completed"@, params) == Some(s),
        item_of(params) is Some && item_text(item_of(params)->0) is Some ==> result_text(
            "item/completed"@,
            params,
        ) == item_text(item_of(params)->0),
        method != "turn/completed"@ && method != "item/completed"@ && method
            != "item/agentMessage"@ && method != "item/agentMessage/delta"@ ==> result_text(
            method,
            params,
        ) is None,
{
    reveal_strlit("turn/completed");
    reveal_strlit("item/completed");
    reveal_strlit("item/agentMessage");
    reveal_strlit("item/agentMessage/delta");
    assert("turn/completed"@.len() == 14 && "turn/completed"@[0] == 't');
    assert("item/completed"@.len() == 14 && "item/completed"@[0] == 'i');
    assert("item/agentMessage"@.len() == 17 && "item/agentMessage/delta"@.len() == 23);
    let keys = turn_keys();
    let k3 = keys.drop_last();
    let k2 = k3.drop_last();
    let k1 = k2.drop_last();
    assert(k1.drop_last() == Seq::<Seq<char>>::empty());
    assert(k1.last() == "last_agent_message"@);
    let turn = turn_of(params);
    if json::member(turn, "last_agent_message"@) == Some(json::JsonView::Text(s)) {
        assert(first_member(turn, k1.drop_last()) is None);
        assert(first_member(turn, k1) == Some(json::JsonView::Text(s)));
        assert(first_member(turn, k2) == Some(json::JsonView::Text(s)));
        assert(first_member(turn, k3) == Some(json::JsonView::Text(s)));
        assert(first_member(turn, keys) == Some(json::JsonView::Text(s)));
    }
}

/// A summary and references are taken from the top of an event before its parts.
pub proof fn law_what_stands_at_the_top_goes_first(
    params: json::JsonView,
    s: Seq<char>,
    items: Seq<json::JsonView>,
)
    requires
        !text::is_blank(s),
        json::only_texts(items).len() > 0,
    ensures
        json::member(params, "summary"@) == Some(json::JsonView::Text(s)) ==> summary_of(params)
            == Some(s),
        json::member(params, "summary"@) is None && json::inner(
            json::member(params, "item"@),
            "summary"@,
        ) == Some(json::JsonView::Text(s)) ==> summary_of(params) == Some(s),
        json::member(params, "references"@) == Some(json::JsonView::List(items)) ==> references_of(
            params,
        ) == Some(json::only_texts(items)),
        json::member(params, "references"@) == Some(json::JsonView::Text(s)) ==> references_of(
            params,
        ) == Some(seq![text::trimmed(s)]),
{
}

/// A turn that names no last message says what stands under one of the other names, and else what
/// its last item says.
pub proof fn law_turns_say_their_text(turn: json::JsonView, s: Seq<char>)
    requires
        !text::is_blank(s),
        json::member(turn, "last_agent_message"@) is None,
    ensures
        json::member(turn, "message"@) == Some(json::JsonView::Text(s)) ==> turn_text(turn) == Some(
            s,
        ),
        json::member(turn, "message"@) is None && json::member(turn, "text"@) == Some(
            json::JsonView::Text(s),
        ) ==> turn_text(turn) == Some(s),
        json::member(turn, "message"@) is None && json::member(turn, "text"@) is None
            && json::member(turn, "result"@) is None && json::member(turn, "items"@) is Some
            && json::member(turn, "items"@)->0 is List ==> turn_text(turn) == last_item_text(
            json::member(turn, "items"@)->0->List_0,
        ),
{
    let keys = turn_keys();
    let k3 = keys.drop_last();
    let k2 = k3.drop_last();
    let k1 = k2.drop_last();
    assert(k1.drop_last() == Seq::<Seq<char>>::empty());
    assert(k1.last() == "last_agent_message"@ && k2.last() == "message"@ && k3.last() == "text"@
        && keys.last() == "result"@);
    assert(first_member(turn, k1.drop_last()) is None);
    assert(first_member(turn, k1) is None);
    assert(first_member(turn, k2) == json::member(turn, "message"@));
    assert(first_member(turn, k3) == json::either(
        json::member(turn, "message"@),
        json::member(turn, "text"@),
    ));
    assert(first_member(turn, keys) == json::either(
        first_member(turn, k3),
        json::member(turn, "result"@),
    ));
}

/// A message says what stands under one of its names.
pub proof fn law_messages_say_their_text(params: json::JsonView, s: Seq<char>)
    requires
        !text::is_blank(s),
    ensures
        json::member(params, "text"@) == Some(json::JsonView::Text(s)) ==> result_text(
            "item/agentMessage"@,
            params,
        ) == Some(s) && result_text("item/agentMessage/delta"@, params) == Some(s),
        json::member(params, "text"@) is None && json::member(params, "message"@) is None
            && json::member(params, "delta"@) == Some(json::JsonView::Text(s)) ==> result_text(
            "item/agentMessage/delta"@,
            params,
        ) == Some(s),
{
    reveal_strlit("turn/completed");
    reveal_strlit("item/agentMessage");
    reveal_strlit("item/agentMessage/delta");
    assert("turn/completed"@.len() == 14);
    assert("item/agentMessage"@.len() == 17 && "item/agentMessage/delta"@.len() == 23);
    let keys = message_keys();
    let k3 = keys.drop_last();
    let k2 = k3.drop_last();
    let k1 = k2.drop_last();
    assert(k1.drop_last() == Seq::<Seq<char>>::empty());
    assert(k1.last() == "text"@ && k2.last() == "message"@ && k3.last() == "delta"@ && keys.last()
        == "snippet"@);
    assert(first_member(params, k1.drop_last()) is None);
    assert(first_member(params, k1) == json::member(params, "text"@));
    assert(first_member(params, k2) == json::either(
        json::member(params, "text"@),
        json::member(params, "message"@),
    ));
    assert(first_member(params, k3) == json::either(
        first_member(params, k2),
        json::member(params, "delta"@),
    ));
    assert(first_member(params, keys) == json::either(
        first_member(params, k3),
        json::member(params, "snippet"@),
    ));
}

} // verus!

//! Building of JSON values.
use vstd::prelude::*;

use crate::json;
use crate::json::Json;

verus! {

/// Adds an entry to those of an object.
pub fn push_entry(items: &mut Vec<(String, Json)>, key: &str, value: Json)
    ensures
        json::entries_model(final(items)@) == json::entries_model(old(items)@).push(
            (key@, value@),
        ),
{
    let one = (key.to_owned(), value);
    proof {
        assert(items@.push(one).drop_last() == items@);
    }
    items.push(one);
}

/// A text, or null where there is none.
pub open spec fn text_or_null(t: Option<Seq<char>>) -> json::JsonView {
    match t {
        Some(s) => json::JsonView::Text(s),
        None => json::JsonView::Null,
    }
}

/// A whole number.
pub open spec fn whole(n: int) -> json::JsonView {
    json::JsonView::Number(json::NumberView::Whole(n))
}

/// A text, or null where there is none.
pub fn opt_text_json(t: &Option<String>) -> (r: Json)
    ensures
        r@ == text_or_null(crate::text::opt_text(*t)),
{
    match t {
        Some(s) => Json::Text(s.clone()),
        None => Json::Null,
    }
}

/// A whole number.
pub fn unsigned_json(n: u64) -> (r: Json)
    ensures
        r@ == whole(n as int),
{
    Json::Number(json::JsonNumber::Unsigned(n))
}

/// One entry of an object.
fn entry(key: &str, value: Json) -> (r: (String, Json))
    ensures
        r.0@ == key@,
        r.1 == value,
{
    (key.to_owned(), value)
}

/// An object of one entry.
pub fn object1(k1: &str, v1: Json) -> (r: Json)
    ensures
        r@ == json::JsonView::Object(seq![(k1@, v1@)]),
{
    let mut items: Vec<(String, Json)> = Vec::new();
    items.push(entry(k1, v1));
    proof {
        json::lemma_entries_model(items@);
        assert(json::entries_model(items@) == seq![(k1@, v1@)]);
    }
    Json::Object(items)
}

/// An object of two entries.
pub fn object2(k1: &str, v1: Json, k2: &str, v2: Json) -> (r: Json)
    ensures
        r@ == json::JsonView::Object(seq![(k1@, v1@), (k2@, v2@)]),
{
    let mut items: Vec<(String, Json)> = Vec::new();
    items.push(entry(k1, v1));
    items.push(entry(k2, v2));
    proof {
        json::lemma_entries_model(items@);
        assert(json::entries_model(items@) == seq![(k1@, v1@), (k2@, v2@)]);
    }
    Json::Object(items)
}

/// An object of three entries.
pub fn object3(k1: &str, v1: Json, k2: &str, v2: Json, k3: &str, v3: Json) -> (r: Json)
    ensures
        r@ == json::JsonView::Object(seq![(k1@, v1@), (k2@, v2@), (k3@, v3@)]),
{
    let mut items: Vec<(String, Json)> = Vec::new();
    items.push(entry(k1, v1));
    items.push(entry(k2, v2));
    items.push(entry(k3, v3));
    proof {
        json::lemma_entries_model(items@);
        assert(json::entries_model(items@) == seq![(k1@, v1@), (k2@, v2@), (k3@, v3@)]);
    }
    Json::Object(items)
}

/// The empty list.
pub fn empty_list() -> (r: Json)
    ensures
        r@ == json::JsonView::List(Seq::empty()),
{
    let items: Vec<Json> = Vec::new();
    assert(json::list_model(items@) == Seq::<json::JsonView>::empty());
    Json::List(items)
}

/// The empty object.
pub fn empty_object() -> (r: Json)
    ensures
        r@ == json::JsonView::Object(Seq::empty()),
{
    let items: Vec<(String, Json)> = Vec::new();
    assert(json::entries_model(items@) == Seq::<(Seq<char>, json::JsonView)>::empty());
    Json::Object(items)
}

} // verus!

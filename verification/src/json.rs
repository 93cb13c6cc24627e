//! JSON values as the event logic reads and builds them.
use vstd::prelude::*;

use crate::text;
use crate::text::same_text;

verus! {

/// A number that is written with a fraction or an exponent.
#[derive(Debug)]
pub struct RealNumber {
    /// The number as it is written.
    pub text: String,
    /// Its integral part, held at the bounds of `u64`.
    pub magnitude: u64,
}

/// A JSON number.
#[derive(Debug)]
pub enum JsonNumber {
    Unsigned(u64),
    Negative(i64),
    Real(RealNumber),
}

/// A JSON value. The entries of an object stand in the order of its keys.
#[derive(Debug)]
pub enum Json {
    Null,
    Bool(bool),
    Number(JsonNumber),
    Text(String),
    List(Vec<Json>),
    Object(Vec<(String, Json)>),
}

/// What a number stands for.
pub enum NumberView {
    Whole(int),
    Real { text: Seq<char>, magnitude: u64 },
}

/// What a JSON value stands for.
pub enum JsonView {
    Null,
    Bool(bool),
    Number(NumberView),
    Text(Seq<char>),
    List(Seq<JsonView>),
    Object(Seq<(Seq<char>, JsonView)>),
}

impl View for JsonNumber {
    type V = NumberView;

    open spec fn view(&self) -> NumberView {
        match self {
            JsonNumber::Unsigned(n) => NumberView::Whole(*n as int),
            JsonNumber::Negative(n) => NumberView::Whole(*n as int),
            JsonNumber::Real(r) => NumberView::Real { text: r.text@, magnitude: r.magnitude },
        }
    }
}

impl Json {
    /// What the value stands for.
    pub open spec fn model(self) -> JsonView
        decreases self,
    {
        match self {
            Json::Null => JsonView::Null,
            Json::Bool(b) => JsonView::Bool(b),
            Json::Number(n) => JsonView::Number(n@),
            Json::Text(s) => JsonView::Text(s@),
            Json::List(v) => JsonView::List(list_model(v@)),
            Json::Object(v) => JsonView::Object(entries_model(v@)),
        }
    }
}

/// What the values of a list stand for.
pub open spec fn list_model(items: Seq<Json>) -> Seq<JsonView>
    decreases items,
{
    if items.len() == 0 {
        Seq::empty()
    } else {
        list_model(items.drop_last()).push(items.last().model())
    }
}

/// What the entries of an object stand for.
pub open spec fn entries_model(items: Seq<(String, Json)>) -> Seq<(Seq<char>, JsonView)>
    decreases items,
{
    if items.len() == 0 {
        Seq::empty()
    } else {
        entries_model(items.drop_last()).push((items.last().0@, items.last().1.model()))
    }
}

impl View for Json {
    type V = JsonView;

    open spec fn view(&self) -> JsonView {
        self.model()
    }
}

/// The value of the first entry with key `key`.
pub open spec fn entry_value(items: Seq<(Seq<char>, JsonView)>, key: Seq<char>) -> Option<JsonView>
    decreases items.len(),
{
    if items.len() == 0 {
        None
    } else if items[0].0 == key {
        Some(items[0].1)
    } else {
        entry_value(items.skip(1), key)
    }
}

/// The member `key` of an object; no other value has members.
pub open spec fn member(value: JsonView, key: Seq<char>) -> Option<JsonView> {
    match value {
        JsonView::Object(items) => entry_value(items, key),
        _ => None,
    }
}

/// The member `key` of a value that may be absent itself.
pub open spec fn inner(value: Option<JsonView>, key: Seq<char>) -> Option<JsonView> {
    match value {
        Some(v) => member(v, key),
        None => None,
    }
}

/// The first of two values that is present.
pub open spec fn either<T>(a: Option<T>, b: Option<T>) -> Option<T> {
    if a is Some {
        a
    } else {
        b
    }
}

/// The text of a value that is a text.
pub open spec fn text_of(value: Option<JsonView>) -> Option<Seq<char>> {
    match value {
        Some(JsonView::Text(s)) => Some(s),
        _ => None,
    }
}

/// The number of a value that is a whole number within `u64`.
pub open spec fn unsigned_of(value: Option<JsonView>) -> Option<u64> {
    match value {
        Some(JsonView::Number(NumberView::Whole(n))) => if 0 <= n <= u64::MAX {
            Some(n as u64)
        } else {
            None
        },
        _ => None,
    }
}

/// The number of a value that is a whole number within `i64`.
pub open spec fn signed_of(value: Option<JsonView>) -> Option<i64> {
    match value {
        Some(JsonView::Number(NumberView::Whole(n))) => if i64::MIN <= n <= i64::MAX {
            Some(n as i64)
        } else {
            None
        },
        _ => None,
    }
}

/// What stands behind an optional reference.
pub open spec fn behind(r: Option<&Json>) -> Option<JsonView> {
    match r {
        Some(v) => Some(v@),
        None => None,
    }
}

/// The texts among the values, in order.
pub open spec fn only_texts(items: Seq<JsonView>) -> Seq<Seq<char>>
    decreases items.len(),
{
    if items.len() == 0 {
        Seq::empty()
    } else {
        let rest = only_texts(items.drop_last());
        match items.last() {
            JsonView::Text(s) => rest.push(s),
            _ => rest,
        }
    }
}

/// A list stands for what its values stand for, one by one.
pub proof fn lemma_list_model(items: Seq<Json>)
    ensures
        list_model(items).len() == items.len(),
        forall|i: int| 0 <= i < items.len() ==> #[trigger] list_model(items)[i] == items[i]@,
    decreases items.len(),
{
    if items.len() > 0 {
        lemma_list_model(items.drop_last());
        assert forall|i: int| 0 <= i < items.len() implies #[trigger] list_model(items)[i]
            == items[i]@ by {
            if i < items.len() - 1 {
                assert(items.drop_last()[i] == items[i]);
            }
        }
    }
}

/// The entries of an object stand for their keys and values, one by one.
pub proof fn lemma_entries_model(items: Seq<(String, Json)>)
    ensures
        entries_model(items).len() == items.len(),
        forall|i: int|
            0 <= i < items.len() ==> #[trigger] entries_model(items)[i] == (
                items[i].0@,
                items[i].1@,
            ),
    decreases items.len(),
{
    if items.len() > 0 {
        lemma_entries_model(items.drop_last());
        assert forall|i: int| 0 <= i < items.len() implies #[trigger] entries_model(items)[i] == (
            items[i].0@,
            items[i].1@,
        ) by {
            if i < items.len() - 1 {
                assert(items.drop_last()[i] == items[i]);
            }
        }
    }
}

proof fn lemma_entry_value_skip(items: Seq<(Seq<char>, JsonView)>, key: Seq<char>, i: int)
    requires
        0 <= i <= items.len(),
        forall|j: int| 0 <= j < i ==> (#[trigger] items[j]).0 != key,
    ensures
        entry_value(items, key) == entry_value(items.skip(i), key),
    decreases i,
{
    if i > 0 {
        assert forall|j: int| 0 <= j < i - 1 implies (#[trigger] items.skip(1)[j]).0 != key by {
            assert(items[j + 1].0 != key);
        }
        lemma_entry_value_skip(items.skip(1), key, i - 1);
        assert(items.skip(1).skip(i - 1) == items.skip(i));
        assert(items[0].0 != key);
    } else {
        assert(items.skip(0) == items);
    }
}

/// The value of the first entry with key `key`.
fn find_entry<'a>(items: &'a Vec<(String, Json)>, key: &str) -> (r: Option<&'a Json>)
    ensures
        behind(r) == entry_value(entries_model(items@), key@),
{
    let ghost model = entries_model(items@);
    proof {
        lemma_entries_model(items@);
    }
    let mut i: usize = 0;
    while i < items.len()
        invariant
            i <= items@.len(),
            model == entries_model(items@),
            model.len() == items@.len(),
            forall|j: int|
                0 <= j < items@.len() ==> #[trigger] model[j] == (items@[j].0@, items@[j].1@),
            forall|j: int| 0 <= j < i ==> (#[trigger] model[j]).0 != key@,
        decreases items@.len() - i,
    {
        if same_text(items[i].0.as_str(), key) {
            proof {
                lemma_entry_value_skip(model, key@, i as int);
                assert(model.skip(i as int)[0] == model[i as int]);
            }
            return Some(&items[i].1);
        }
        i += 1;
    }
    proof {
        lemma_entry_value_skip(model, key@, i as int);
    }
    None
}

impl Json {
    /// The member `key` of an object.
    pub fn get(&self, key: &str) -> (r: Option<&Json>)
        ensures
            behind(r) == member(self@, key@),
    {
        match self {
            Json::Object(items) => find_entry(items, key),
            _ => None,
        }
    }

    /// The text of a value that is a text.
    pub fn as_str(&self) -> (r: Option<&String>)
        ensures
            r is Some == text_of(Some(self@)) is Some,
            r matches Some(s) ==> Some(s@) == text_of(Some(self@)),
    {
        match self {
            Json::Text(s) => Some(s),
            _ => None,
        }
    }
}

impl Clone for JsonNumber {
    fn clone(&self) -> (r: Self)
        ensures
            r == *self,
    {
        match self {
            JsonNumber::Unsigned(n) => JsonNumber::Unsigned(*n),
            JsonNumber::Negative(n) => JsonNumber::Negative(*n),
            JsonNumber::Real(x) => JsonNumber::Real(
                RealNumber { text: x.text.clone(), magnitude: x.magnitude },
            ),
        }
    }
}

/// A copy that stands for the same.
fn copy_json(value: &Json) -> (r: Json)
    ensures
        r@ == value@,
    decreases value,
{
    match value {
        Json::Null => Json::Null,
        Json::Bool(b) => Json::Bool(*b),
        Json::Number(n) => Json::Number(n.clone()),
        Json::Text(s) => Json::Text(s.clone()),
        Json::List(items) => {
            let mut copies: Vec<Json> = Vec::new();
            let mut i: usize = 0;
            while i < items.len()
                invariant
                    i <= items@.len(),
                    *value == Json::List(*items),
                    list_model(copies@) == list_model(items@.take(i as int)),
                decreases items@.len() - i,
            {
                assert(decreases_to!(value => value->List_0));
                assert(decreases_to!(items => items@));
                assert(decreases_to!(items@ => items@[i as int]));
                let one = copy_json(&items[i]);
                proof {
                    assert(items@.take(i + 1).drop_last() == items@.take(i as int));
                    assert(copies@.push(one).drop_last() == copies@);
                }
                copies.push(one);
                i += 1;
            }
            assert(items@.take(items@.len() as int) == items@);
            Json::List(copies)
        },
        Json::Object(items) => {
            let mut copies: Vec<(String, Json)> = Vec::new();
            let mut i: usize = 0;
            while i < items.len()
                invariant
                    i <= items@.len(),
                    *value == Json::Object(*items),
                    entries_model(copies@) == entries_model(items@.take(i as int)),
                decreases items@.len() - i,
            {
                assert(decreases_to!(value => value->Object_0));
                assert(decreases_to!(items => items@));
                assert(decreases_to!(items@ => items@[i as int]));
                assert(decreases_to!(items@[i as int] => items@[i as int].1));
                let one = (items[i].0.clone(), copy_json(&items[i].1));
                proof {
                    assert(items@.take(i + 1).drop_last() == items@.take(i as int));
                    assert(copies@.push(one).drop_last() == copies@);
                }
                copies.push(one);
                i += 1;
            }
            assert(items@.take(items@.len() as int) == items@);
            Json::Object(copies)
        },
    }
}

impl Clone for Json {
    fn clone(&self) -> (r: Self)
        ensures
            r@ == self@,
    {
        copy_json(self)
    }
}

/// The member `key` of a value that may be absent itself.
pub fn get_in<'a>(value: Option<&'a Json>, key: &str) -> (r: Option<&'a Json>)
    ensures
        behind(r) == inner(behind(value), key@),
{
    match value {
        Some(v) => v.get(key),
        None => None,
    }
}

/// The first of two values that is present.
pub fn first_of<'a>(a: Option<&'a Json>, b: Option<&'a Json>) -> (r: Option<&'a Json>)
    ensures
        behind(r) == either(behind(a), behind(b)),
{
    if a.is_some() {
        a
    } else {
        b
    }
}

/// The text of a value that is a text.
pub fn text_in(value: Option<&Json>) -> (r: Option<String>)
    ensures
        text::opt_text(r) == text_of(behind(value)),
{
    match value {
        Some(Json::Text(s)) => Some(s.clone()),
        _ => None,
    }
}

/// The number of a value that is a whole number within `u64`.
pub fn unsigned_in(value: Option<&Json>) -> (r: Option<u64>)
    ensures
        r == unsigned_of(behind(value)),
{
    match value {
        Some(Json::Number(JsonNumber::Unsigned(n))) => Some(*n),
        Some(Json::Number(JsonNumber::Negative(n))) => if *n >= 0 {
            Some(*n as u64)
        } else {
            None
        },
        _ => None,
    }
}

/// The number of a value that is a whole number within `i64`.
pub fn signed_in(value: Option<&Json>) -> (r: Option<i64>)
    ensures
        r == signed_of(behind(value)),
{
    match value {
        Some(Json::Number(JsonNumber::Unsigned(n))) => if *n <= i64::MAX as u64 {
            Some(*n as i64)
        } else {
            None
        },
        Some(Json::Number(JsonNumber::Negative(n))) => Some(*n),
        _ => None,
    }
}

/// The texts among the values, in order.
pub fn texts_in(items: &Vec<Json>) -> (r: Vec<String>)
    ensures
        text::texts(r@) == only_texts(list_model(items@)),
{
    let mut r: Vec<String> = Vec::new();
    let mut i: usize = 0;
    while i < items.len()
        invariant
            i <= items@.len(),
            text::texts(r@) == only_texts(list_model(items@.take(i as int))),
        decreases items@.len() - i,
    {
        proof {
            assert(items@.take(i + 1).drop_last() == items@.take(i as int));
            let part = list_model(items@.take(i + 1));
            assert(part.drop_last() == list_model(items@.take(i as int)));
            assert(part.last() == items@[i as int]@);
            assert(part.len() > 0);
        }
        if let Json::Text(s) = &items[i] {
            let ghost before = r@;
            r.push(s.clone());
            assert(text::texts(r@) == text::texts(before).push(s@));
        }
        i += 1;
    }
    assert(items@.take(items@.len() as int) == items@);
    r
}

/// A member is found under its key where it was put first, and no member is found of anything but
/// an object.
pub proof fn law_members_are_found_under_their_keys(
    items: Seq<(Seq<char>, JsonView)>,
    key: Seq<char>,
    value: JsonView,
    other: Seq<char>,
)
    ensures
        member(JsonView::Object(seq![(key, value)] + items), key) == Some(value),
        other != key ==> member(JsonView::Object(seq![(key, value)] + items), other) == member(
            JsonView::Object(items),
            other,
        ),
        member(JsonView::Object(Seq::empty()), key) is None,
        !(value is Object) ==> member(value, key) is None,
        inner(None, key) is None && inner(Some(value), key) == member(value, key),
{
    let all = seq![(key, value)] + items;
    assert(all[0] == (key, value));
    assert(all.skip(1) == items);
}

/// A value is read as what it is: a text as a text, a whole number within the bounds as a number,
/// and anything else as neither. What is there goes before what stands in for it.
pub proof fn law_values_are_read_as_what_they_are(s: Seq<char>, n: u64, z: i64, other: Option<u64>)
    ensures
        text_of(Some(JsonView::Text(s))) == Some(s),
        text_of(Some(JsonView::Number(NumberView::Whole(n as int)))) is None,
        text_of(None) is None,
        unsigned_of(Some(JsonView::Number(NumberView::Whole(n as int)))) == Some(n),
        z < 0 ==> unsigned_of(Some(JsonView::Number(NumberView::Whole(z as int)))) is None,
        signed_of(Some(JsonView::Number(NumberView::Whole(z as int)))) == Some(z),
        n > i64::MAX ==> signed_of(Some(JsonView::Number(NumberView::Whole(n as int)))) is None,
        unsigned_of(Some(JsonView::Text(s))) is None && signed_of(Some(JsonView::Text(s))) is None,
        either(Some(n), other) == Some(n),
        either(None, other) == other,
{
}

/// Of a list, the texts are taken, in order, and nothing else.
pub proof fn law_texts_of_a_list_are_taken(items: Seq<JsonView>, item: JsonView)
    ensures
        only_texts(Seq::<JsonView>::empty()).len() == 0,
        item is Text ==> only_texts(items.push(item)) == only_texts(items).push(item->Text_0),
        !(item is Text) ==> only_texts(items.push(item)) == only_texts(items),
{
    assert(items.push(item).drop_last() == items);
}

} // verus!

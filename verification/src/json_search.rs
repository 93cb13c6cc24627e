//! Searching and shortening of JSON values.
use vstd::prelude::*;

use crate::json;
use crate::json::{Json, JsonNumber};
use crate::text;
use crate::text::same_text;
use crate::text_search::{starts_with, take_chars};

verus! {

/// How many bytes a text takes.
pub open spec fn byte_len(s: Seq<char>) -> usize {
    vstd::utf8::encode_utf8(s).len() as usize
}

/// A text of more than `max_len` bytes, cut to `max_len` characters and marked as cut.
pub open spec fn shortened(s: Seq<char>, max_len: usize) -> Seq<char> {
    if byte_len(s) <= max_len {
        s
    } else {
        s.take(if max_len <= s.len() { max_len as int } else { s.len() as int }) + "..."@
    }
}

/// The value with each text shortened and each list cut to its 20 first values.
pub open spec fn shortened_value(value: json::JsonView, max_len: usize) -> json::JsonView
    decreases value,
{
    match value {
        json::JsonView::Text(s) => json::JsonView::Text(shortened(s, max_len)),
        json::JsonView::List(items) => json::JsonView::List(
            shortened_list(if items.len() <= 20 { items } else { items.take(20) }, max_len),
        ),
        json::JsonView::Object(items) => json::JsonView::Object(shortened_entries(items, max_len)),
        other => other,
    }
}

/// The values of a list, each shortened.
pub open spec fn shortened_list(items: Seq<json::JsonView>, max_len: usize) -> Seq<json::JsonView>
    decreases items,
{
    if items.len() == 0 {
        Seq::empty()
    } else {
        shortened_list(items.drop_last(), max_len).push(shortened_value(items.last(), max_len))
    }
}

/// The entries of an object, the value of each shortened.
pub open spec fn shortened_entries(
    items: Seq<(Seq<char>, json::JsonView)>,
    max_len: usize,
) -> Seq<(Seq<char>, json::JsonView)>
    decreases items,
{
    if items.len() == 0 {
        Seq::empty()
    } else {
        shortened_entries(items.drop_last(), max_len).push(
            (items.last().0, shortened_value(items.last().1, max_len)),
        )
    }
}

/// The list of keys as texts.
pub open spec fn key_texts(keys: Seq<&str>) -> Seq<Seq<char>> {
    keys.map_values(|k: &str| k@)
}

/// The integral part of a number that is written as `s`, unless it is below zero. Minus zero is
/// not.
pub open spec fn real_amount(s: Seq<char>, magnitude: u64) -> Option<u64> {
    if text::begins(s, "-"@) && s != "-0.0"@ {
        None
    } else {
        Some(magnitude)
    }
}

/// The amount that a value gives: a number from zero on, without its fraction.
pub open spec fn amount_of(value: Option<json::JsonView>) -> Option<u64> {
    match value {
        Some(json::JsonView::Number(json::NumberView::Whole(n))) => if 0 <= n <= u64::MAX {
            Some(n as u64)
        } else {
            None
        },
        Some(
            json::JsonView::Number(json::NumberView::Real { text, magnitude }),
        ) => real_amount(text, magnitude),
        _ => None,
    }
}

/// The amount of the first of `keys` that has one in the object.
pub open spec fn keyed_amount(object: json::JsonView, keys: Seq<Seq<char>>) -> Option<u64>
    decreases keys.len(),
{
    if keys.len() == 0 {
        None
    } else {
        json::either(
            keyed_amount(object, keys.drop_last()),
            amount_of(json::member(object, keys.last())),
        )
    }
}

/// The first amount under one of `keys`, a value before the values nested in it.
pub open spec fn amount_under(value: json::JsonView, keys: Seq<Seq<char>>) -> Option<u64>
    decreases value,
{
    match value {
        json::JsonView::Object(items) => json::either(
            keyed_amount(value, keys),
            amount_in_entries(items, keys),
        ),
        json::JsonView::List(items) => amount_in_list(items, keys),
        _ => None,
    }
}

/// The first amount under one of `keys` in the values of a list.
pub open spec fn amount_in_list(items: Seq<json::JsonView>, keys: Seq<Seq<char>>) -> Option<u64>
    decreases items,
{
    if items.len() == 0 {
        None
    } else {
        json::either(
            amount_in_list(items.drop_last(), keys),
            amount_under(items.last(), keys),
        )
    }
}

/// The first amount under one of `keys` in the values of an object.
pub open spec fn amount_in_entries(
    items: Seq<(Seq<char>, json::JsonView)>,
    keys: Seq<Seq<char>>,
) -> Option<u64>
    decreases items,
{
    if items.len() == 0 {
        None
    } else {
        json::either(
            amount_in_entries(items.drop_last(), keys),
            amount_under(items.last().1, keys),
        )
    }
}

/// The number that a value is.
pub open spec fn number_of(value: Option<json::JsonView>) -> Option<json::NumberView> {
    match value {
        Some(json::JsonView::Number(n)) => Some(n),
        _ => None,
    }
}

/// The number of the first of `keys` that has one in the object.
pub open spec fn keyed_number(object: json::JsonView, keys: Seq<Seq<char>>) -> Option<json::NumberView>
    decreases keys.len(),
{
    if keys.len() == 0 {
        None
    } else {
        json::either(
            keyed_number(object, keys.drop_last()),
            number_of(json::member(object, keys.last())),
        )
    }
}

/// The first number under one of `keys`, a value before the values nested in it.
pub open spec fn number_under(value: json::JsonView, keys: Seq<Seq<char>>) -> Option<json::NumberView>
    decreases value,
{
    match value {
        json::JsonView::Object(items) => json::either(
            keyed_number(value, keys),
            number_in_entries(items, keys),
        ),
        json::JsonView::List(items) => number_in_list(items, keys),
        _ => None,
    }
}

/// The first number under one of `keys` in the values of a list.
pub open spec fn number_in_list(items: Seq<json::JsonView>, keys: Seq<Seq<char>>) -> Option<json::NumberView>
    decreases items,
{
    if items.len() == 0 {
        None
    } else {
        json::either(
            number_in_list(items.drop_last(), keys),
            number_under(items.last(), keys),
        )
    }
}

/// The first number under one of `keys` in the values of an object.
pub open spec fn number_in_entries(
    items: Seq<(Seq<char>, json::JsonView)>,
    keys: Seq<Seq<char>>,
) -> Option<json::NumberView>
    decreases items,
{
    if items.len() == 0 {
        None
    } else {
        json::either(
            number_in_entries(items.drop_last(), keys),
            number_under(items.last().1, keys),
        )
    }
}

/// The number behind an optional reference.
pub open spec fn number_behind(r: Option<&JsonNumber>) -> Option<json::NumberView> {
    match r {
        Some(n) => Some(n@),
        None => None,
    }
}

/// Cuts a text of more than `max_len` bytes to `max_len` characters and marks it as cut.
pub fn truncate_text(s: &str, max_len: usize) -> (r: String)
    ensures
        r@ == shortened(s@, max_len),
{
    if s.len() <= max_len {
        s.to_owned()
    } else {
        let mut out = take_chars(s, max_len);
        out.append("...");
        out
    }
}

/// Shortens each text of a value and cuts each list to its 20 first values.
pub fn truncate_json_value(value: &Json, max_len: usize) -> (r: Json)
    ensures
        r@ == shortened_value(value@, max_len),
    decreases value,
{
    match value {
        Json::Object(items) => {
            let mut out: Vec<(String, Json)> = Vec::new();
            let mut i: usize = 0;
            while i < items.len()
                invariant
                    i <= items@.len(),
                    *value == Json::Object(*items),
                    json::entries_model(out@) == shortened_entries(
                        json::entries_model(items@.take(i as int)),
                        max_len,
                    ),
                decreases items@.len() - i,
            {
                assert(decreases_to!(value => value->Object_0));
                assert(decreases_to!(items => items@));
                assert(decreases_to!(items@ => items@[i as int]));
                assert(decreases_to!(items@[i as int] => items@[i as int].1));
                let one = (items[i].0.clone(), truncate_json_value(&items[i].1, max_len));
                proof {
                    assert(items@.take(i + 1).drop_last() == items@.take(i as int));
                    assert(out@.push(one).drop_last() == out@);
                    let m = json::entries_model(items@.take(i + 1));
                    assert(m.drop_last() == json::entries_model(items@.take(i as int)));
                }
                out.push(one);
                i += 1;
            }
            assert(items@.take(items@.len() as int) == items@);
            Json::Object(out)
        },
        Json::List(items) => {
            let n: usize = if items.len() <= 20 {
                items.len()
            } else {
                20
            };
            let mut out: Vec<Json> = Vec::new();
            let mut i: usize = 0;
            while i < n
                invariant
                    i <= n <= items@.len(),
                    *value == Json::List(*items),
                    json::list_model(out@) == shortened_list(
                        json::list_model(items@.take(i as int)),
                        max_len,
                    ),
                decreases n - i,
            {
                assert(decreases_to!(value => value->List_0));
                assert(decreases_to!(items => items@));
                assert(decreases_to!(items@ => items@[i as int]));
                let one = truncate_json_value(&items[i], max_len);
                proof {
                    assert(items@.take(i + 1).drop_last() == items@.take(i as int));
                    assert(out@.push(one).drop_last() == out@);
                    let m = json::list_model(items@.take(i + 1));
                    assert(m.drop_last() == json::list_model(items@.take(i as int)));
                }
                out.push(one);
                i += 1;
            }
            proof {
                json::lemma_list_model(items@);
                json::lemma_list_model(items@.take(n as int));
                let m = json::list_model(items@);
                assert(items@.take(items@.len() as int) == items@);
                assert(json::list_model(items@.take(n as int)) == (if m.len() <= 20 {
                    m
                } else {
                    m.take(20)
                }));
            }
            Json::List(out)
        },
        Json::Text(s) => Json::Text(truncate_text(s.as_str(), max_len)),
        other => other.clone(),
    }
}

/// The amount of the first of `keys` that has one in the object.
fn find_keyed_amount(object: &Json, keys: &Vec<&str>) -> (r: Option<u64>)
    ensures
        r == keyed_amount(object@, key_texts(keys@)),
{
    let mut found: Option<u64> = None;
    let mut i: usize = 0;
    while i < keys.len()
        invariant
            i <= keys@.len(),
            found == keyed_amount(object@, key_texts(keys@.take(i as int))),
        decreases keys@.len() - i,
    {
        proof {
            let part = key_texts(keys@.take(i + 1));
            assert(part.drop_last() == key_texts(keys@.take(i as int)));
            assert(part.last() == keys@[i as int]@);
        }
        if found.is_none() {
            found =
            match object.get(keys[i]) {
                Some(Json::Number(JsonNumber::Unsigned(n))) => Some(*n),
                Some(Json::Number(JsonNumber::Negative(n))) => if *n >= 0 {
                    Some(*n as u64)
                } else {
                    None
                },
                Some(Json::Number(JsonNumber::Real(x))) => if starts_with(x.text.as_str(), "-")
                    && !same_text(x.text.as_str(), "-0.0") {
                    None
                } else {
                    Some(x.magnitude)
                },
                _ => None,
            };
        }
        i += 1;
    }
    assert(keys@.take(keys@.len() as int) == keys@);
    found
}

/// The first amount under one of `keys`, a value before the values nested in it.
pub fn find_numeric_key(value: &Json, keys: &Vec<&str>) -> (r: Option<u64>)
    ensures
        r == amount_under(value@, key_texts(keys@)),
    decreases value,
{
    match value {
        Json::Object(items) => {
            let own = find_keyed_amount(value, keys);
            if own.is_some() {
                return own;
            }
            let mut found: Option<u64> = None;
            let mut i: usize = 0;
            while i < items.len()
                invariant
                    i <= items@.len(),
                    *value == Json::Object(*items),
                    found == amount_in_entries(json::entries_model(items@.take(i as int)), key_texts(keys@)),
                decreases items@.len() - i,
            {
                proof {
                    assert(items@.take(i + 1).drop_last() == items@.take(i as int));
                    let part = json::entries_model(items@.take(i + 1));
                    assert(part.drop_last() == json::entries_model(items@.take(i as int)));
                }
                assert(decreases_to!(value => value->Object_0));
                assert(decreases_to!(items => items@));
                assert(decreases_to!(items@ => items@[i as int]));
                assert(decreases_to!(items@[i as int] => items@[i as int].1));
                if found.is_none() {
                    found = find_numeric_key(&items[i].1, keys);
                }
                i += 1;
            }
            assert(items@.take(items@.len() as int) == items@);
            found
        },
        Json::List(items) => {
            let mut found: Option<u64> = None;
            let mut i: usize = 0;
            while i < items.len()
                invariant
                    i <= items@.len(),
                    *value == Json::List(*items),
                    found == amount_in_list(json::list_model(items@.take(i as int)), key_texts(keys@)),
                decreases items@.len() - i,
            {
                proof {
                    assert(items@.take(i + 1).drop_last() == items@.take(i as int));
                    let part = json::list_model(items@.take(i + 1));
                    assert(part.drop_last() == json::list_model(items@.take(i as int)));
                }
                assert(decreases_to!(value => value->List_0));
                assert(decreases_to!(items => items@));
                assert(decreases_to!(items@ => items@[i as int]));
                if found.is_none() {
                    found = find_numeric_key(&items[i], keys);
                }
                i += 1;
            }
            assert(items@.take(items@.len() as int) == items@);
            found
        },
        _ => None,
    }
}

/// The number of the first of `keys` that has one in the object.
fn find_keyed_number<'a>(object: &'a Json, keys: &Vec<&str>) -> (r: Option<&'a JsonNumber>)
    ensures
        number_behind(r) == keyed_number(object@, key_texts(keys@)),
{
    let mut found: Option<&'a JsonNumber> = None;
    let mut i: usize = 0;
    while i < keys.len()
        invariant
            i <= keys@.len(),
            number_behind(found) == keyed_number(object@, key_texts(keys@.take(i as int))),
        decreases keys@.len() - i,
    {
        proof {
            let part = key_texts(keys@.take(i + 1));
            assert(part.drop_last() == key_texts(keys@.take(i as int)));
            assert(part.last() == keys@[i as int]@);
        }
        if found.is_none() {
            found =
            match object.get(keys[i]) {
                Some(Json::Number(n)) => Some(n),
                _ => None,
            };
        }
        i += 1;
    }
    assert(keys@.take(keys@.len() as int) == keys@);
    found
}

/// The first number under one of `keys`, a value before the values nested in it.
pub fn find_float_key<'a>(value: &'a Json, keys: &Vec<&str>) -> (r: Option<&'a JsonNumber>)
    ensures
        number_behind(r) == number_under(value@, key_texts(keys@)),
    decreases value,
{
    match value {
        Json::Object(items) => {
            let own = find_keyed_number(value, keys);
            if own.is_some() {
                return own;
            }
            let mut found: Option<&'a JsonNumber> = None;
            let mut i: usize = 0;
            while i < items.len()
                invariant
                    i <= items@.len(),
                    *value == Json::Object(*items),
                    number_behind(found) == number_in_entries(
                        json::entries_model(items@.take(i as int)),
                        key_texts(keys@),
                    ),
                decreases items@.len() - i,
            {
                proof {
                    assert(items@.take(i + 1).drop_last() == items@.take(i as int));
                    let part = json::entries_model(items@.take(i + 1));
                    assert(part.drop_last() == json::entries_model(items@.take(i as int)));
                }
                assert(decreases_to!(value => value->Object_0));
                assert(decreases_to!(items => items@));
                assert(decreases_to!(items@ => items@[i as int]));
                assert(decreases_to!(items@[i as int] => items@[i as int].1));
                if found.is_none() {
                    found = find_float_key(&items[i].1, keys);
                }
                i += 1;
            }
            assert(items@.take(items@.len() as int) == items@);
            found
        },
        Json::List(items) => {
            let mut found: Option<&'a JsonNumber> = None;
            let mut i: usize = 0;
            while i < items.len()
                invariant
                    i <= items@.len(),
                    *value == Json::List(*items),
                    number_behind(found) == number_in_list(json::list_model(items@.take(i as int)), key_texts(keys@)),
                decreases items@.len() - i,
            {
                proof {
                    assert(items@.take(i + 1).drop_last() == items@.take(i as int));
                    let part = json::list_model(items@.take(i + 1));
                    assert(part.drop_last() == json::list_model(items@.take(i as int)));
                }
                assert(decreases_to!(value => value->List_0));
                assert(decreases_to!(items => items@));
                assert(decreases_to!(items@ => items@[i as int]));
                if found.is_none() {
                    found = find_float_key(&items[i], keys);
                }
                i += 1;
            }
            assert(items@.take(items@.len() as int) == items@);
            found
        },
        _ => None,
    }
}

/// An amount that stands under a key at the top of a value is found there, whatever else the value
/// holds; the first key comes before the second. A value without members holds none.
pub proof fn law_amounts_at_the_top_are_found(
    value: json::JsonView,
    first: Seq<char>,
    second: Seq<char>,
    n: u64,
)
    ensures
        json::member(value, first) == Some(
            json::JsonView::Number(json::NumberView::Whole(n as int)),
        ) ==> amount_under(value, seq![first, second]) == Some(n),
        !(json::member(value, first) matches Some(json::JsonView::Number(_))) && json::member(
            value,
            second,
        ) == Some(json::JsonView::Number(json::NumberView::Whole(n as int))) ==> amount_under(
            value,
            seq![first, second],
        ) == Some(n),
        value is Text || value is Number || value is Bool || value is Null ==> amount_under(
            value,
            seq![first, second],
        ) is None,
{
    let keys = seq![first, second];
    assert(keys.drop_last() == seq![first]);
    assert(keys.drop_last().drop_last() == Seq::<Seq<char>>::empty());
    assert(keyed_amount(value, Seq::<Seq<char>>::empty()) is None);
    assert(keyed_amount(value, keys.drop_last()) == amount_of(json::member(value, first)));
    assert(keyed_amount(value, keys) == json::either(
        amount_of(json::member(value, first)),
        amount_of(json::member(value, second)),
    ));
}

/// An amount of a value that is nested in an object or a list is found where nothing comes before
/// it.
pub proof fn law_nested_amounts_are_found(
    inner: json::JsonView,
    name: Seq<char>,
    first: Seq<char>,
    second: Seq<char>,
)
    requires
        name != first,
        name != second,
    ensures
        amount_under(json::JsonView::Object(seq![(name, inner)]), seq![first, second])
            == amount_under(inner, seq![first, second]),
        amount_under(json::JsonView::List(seq![inner]), seq![first, second]) == amount_under(
            inner,
            seq![first, second],
        ),
{
    let keys = seq![first, second];
    let items = seq![(name, inner)];
    let value = json::JsonView::Object(items);
    assert(items.skip(1) == Seq::<(Seq<char>, json::JsonView)>::empty());
    assert(json::entry_value(items.skip(1), first) is None);
    assert(json::entry_value(items.skip(1), second) is None);
    assert(json::member(value, first) is None);
    assert(json::member(value, second) is None);
    assert(keys.drop_last() == seq![first]);
    assert(keys.drop_last().drop_last() == Seq::<Seq<char>>::empty());
    assert(keyed_amount(value, keys.drop_last().drop_last()) is None);
    assert(keyed_amount(value, keys.drop_last()) is None);
    assert(keyed_amount(value, keys) is None);
    assert(items.drop_last() == Seq::<(Seq<char>, json::JsonView)>::empty());
    assert(amount_in_entries(items.drop_last(), keys) is None);
    assert(items.last().1 == inner);
    let list = seq![inner];
    assert(list.drop_last() == Seq::<json::JsonView>::empty());
    assert(amount_in_list(list.drop_last(), keys) is None);
    assert(list.last() == inner);
}

/// A text that fits stays as it is; one that does not is cut to as many characters as are allowed
/// and ends in three dots.
pub proof fn law_short_texts_stay(s: Seq<char>, max_len: usize)
    ensures
        byte_len(s) <= max_len ==> shortened(s, max_len) == s,
        byte_len(s) > max_len ==> text::ends(shortened(s, max_len), "..."@),
        byte_len(s) > max_len && s.len() >= max_len ==> shortened(s, max_len).len() == max_len + 3
            && shortened(s, max_len).take(max_len as int) == s.take(max_len as int),
{
    reveal_strlit("...");
    if byte_len(s) > max_len {
        let t = shortened(s, max_len);
        let n = t.len() - 3;
        assert(t.subrange(n as int, t.len() as int) == "..."@);
        assert(text::occurs_at(t, "..."@, n as int));
    }
}

/// A value is shortened in all its parts: texts by their length, lists to their first items, and
/// objects in each of their values, under the same keys; numbers and the like stay.
pub proof fn law_values_are_shortened_in_all_parts(
    items: Seq<json::JsonView>,
    entries: Seq<(Seq<char>, json::JsonView)>,
    key: Seq<char>,
    value: json::JsonView,
    max_len: usize,
)
    ensures
        shortened_list(items.push(value), max_len) == shortened_list(items, max_len).push(
            shortened_value(value, max_len),
        ),
        shortened_entries(entries.push((key, value)), max_len) == shortened_entries(
            entries,
            max_len,
        ).push((key, shortened_value(value, max_len))),
        shortened_list(Seq::<json::JsonView>::empty(), max_len).len() == 0,
        items.len() <= 20 ==> shortened_value(json::JsonView::List(items), max_len)
            == json::JsonView::List(shortened_list(items, max_len)),
        items.len() > 20 ==> shortened_value(json::JsonView::List(items), max_len)
            == json::JsonView::List(shortened_list(items.take(20), max_len)),
        value is Number || value is Bool || value is Null ==> shortened_value(value, max_len)
            == value,
        value is Text && byte_len(value->Text_0) <= max_len ==> shortened_value(value, max_len)
            == value,
{
    assert(items.push(value).drop_last() == items);
    assert(entries.push((key, value)).drop_last() == entries);
}

/// A number below nothing is no amount, and one that is not whole counts by what is whole of it.
pub proof fn law_amounts_are_not_below_nothing(n: int, s: Seq<char>, magnitude: u64)
    ensures
        n < 0 ==> amount_of(Some(json::JsonView::Number(json::NumberView::Whole(n)))) is None,
        0 <= n <= u64::MAX ==> amount_of(
            Some(json::JsonView::Number(json::NumberView::Whole(n))),
        ) == Some(n as u64),
        amount_of(Some(json::JsonView::Text(s))) is None,
        amount_of(None) is None,
        !text::begins(s, "-"@) ==> amount_of(
            Some(json::JsonView::Number(json::NumberView::Real { text: s, magnitude })),
        ) == Some(magnitude),
        text::begins(s, "-"@) && s != "-0.0"@ ==> amount_of(
            Some(json::JsonView::Number(json::NumberView::Real { text: s, magnitude })),
        ) is None,
{
}

} // verus!

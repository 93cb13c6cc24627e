//! Templates with tokens in double braces.
use vstd::prelude::*;

use crate::error::ForemanError;
use crate::text;
use crate::text::{chars_of, text_range, trim};
use crate::text_map;
use crate::text_map::TextMap;
use crate::vars;
use crate::text_search::{find_from, join, list_has, replace};

verus! {

/// The token of a key.
pub open spec fn token(key: Seq<char>) -> Seq<char> {
    "{{"@ + key + "}}"@
}

/// The template with the token of each entry, one entry after the other, replaced by its value.
pub open spec fn rendered(template: Seq<char>, vars: Seq<(Seq<char>, Seq<char>)>) -> Seq<char>
    decreases vars.len(),
{
    if vars.len() == 0 {
        template
    } else {
        text::replaced(
            rendered(template, vars.drop_last()),
            token(vars.last().0),
            vars.last().1,
        )
    }
}

/// The first position at or after `from` at which `pat` stands.
pub open spec fn first_at(s: Seq<char>, pat: Seq<char>, from: int) -> Option<int>
    decreases s.len() + 1 - from,
{
    if from < 0 || from + pat.len() > s.len() {
        None
    } else if text::occurs_at(s, pat, from) {
        Some(from)
    } else {
        first_at(s, pat, from + 1)
    }
}

/// The tokens from `cursor` on, after those already found: what stands, without white space,
/// between an opening and the next closing pair of braces.
pub open spec fn tokens_from(s: Seq<char>, cursor: int, found: Seq<Seq<char>>) -> Seq<Seq<char>>
    decreases s.len() - cursor,
{
    match first_at(s, "{{"@, cursor) {
        None => found,
        Some(open) => match first_at(s, "}}"@, open + 2) {
            None => found,
            Some(close) => if cursor <= open && open + 2 <= close && close + 2 <= s.len() {
                tokens_from(
                    s,
                    close + 2,
                    text::with_new(found, text::trimmed(s.subrange(open + 2, close))),
                )
            } else {
                found
            },
        },
    }
}

/// The tokens that a text holds, each once.
pub open spec fn unresolved(s: Seq<char>) -> Seq<Seq<char>> {
    tokens_from(s, 0, Seq::empty())
}

proof fn lemma_first_at(s: Seq<char>, pat: Seq<char>, from: int, i: int)
    requires
        0 <= from <= i,
        forall|j: int| from <= j < i ==> !#[trigger] text::occurs_at(s, pat, j),
    ensures
        text::occurs_at(s, pat, i) ==> first_at(s, pat, from) == Some(i),
    decreases i - from,
{
    if text::occurs_at(s, pat, i) && from < i {
        assert(!text::occurs_at(s, pat, from));
        lemma_first_at(s, pat, from + 1, i);
    }
}

proof fn lemma_first_at_none(s: Seq<char>, pat: Seq<char>, from: int)
    requires
        0 <= from,
        forall|j: int| from <= j ==> !#[trigger] text::occurs_at(s, pat, j),
    ensures
        first_at(s, pat, from) is None,
    decreases s.len() + 1 - from,
{
    if from + pat.len() <= s.len() {
        assert(!text::occurs_at(s, pat, from));
        lemma_first_at_none(s, pat, from + 1);
    }
}

/// Replaces the token of each entry, one entry after the other, by its value.
pub fn render_template(template: &str, vars: &TextMap<String>) -> (r: String)
    ensures
        r@ == rendered(template@, vars::entries_of(*vars)),
{
    let n: usize = vars.len();
    let mut out = template.to_owned();
    let mut i: usize = 0;
    let ghost all = vars::entries_of(*vars);
    assert(all.take(0) =~= Seq::<(Seq<char>, Seq<char>)>::empty());
    while i < n
        invariant
            i <= n,
            n == vars.items().len(),
            all == vars::entries_of(*vars),
            out@ == rendered(template@, all.take(i as int)),
        decreases n - i,
    {
        proof {
            let part = all.take(i + 1);
            assert(part.drop_last() == all.take(i as int));
            assert(part.last() == all[i as int]);
            reveal_strlit("{{");
        }
        let mut pattern = "{{".to_owned();
        pattern.append(vars.key_at(i).as_str());
        pattern.append("}}");
        out = replace(out.as_str(), pattern.as_str(), vars.value_at(i).as_str());
        i += 1;
    }
    assert(all.take(n as int) == all);
    out
}

/// The tokens that a text holds, each once.
pub fn unresolved_template_tokens(template: &str) -> (r: Vec<String>)
    ensures
        text::texts(r@) == unresolved(template@),
{
    let chars = chars_of(template);
    let opening = chars_of("{{");
    let closing = chars_of("}}");
    proof {
        reveal_strlit("{{");
        reveal_strlit("}}");
    }
    let n: usize = chars.len();
    let mut found: Vec<String> = Vec::new();
    let mut cursor: usize = 0;
    assert(text::texts(found@) == Seq::<Seq<char>>::empty());
    while cursor <= n
        invariant_except_break
            cursor <= n,
        invariant
            n == chars@.len(),
            chars@ == template@,
            opening@ == "{{"@,
            closing@ == "}}"@,
            opening@.len() == 2,
            closing@.len() == 2,
            tokens_from(template@, cursor as int, text::texts(found@)) == unresolved(template@),
        ensures
            text::texts(found@) == unresolved(template@),
        decreases n - cursor,
    {
        let open: usize = match find_from(&chars, &opening, cursor) {
            Some(open) => open,
            None => {
                proof {
                    lemma_first_at_none(template@, "{{"@, cursor as int);
                }
                break;
            },
        };
        proof {
            lemma_first_at(template@, "{{"@, cursor as int, open as int);
        }
        let close: usize = match find_from(&chars, &closing, open + 2) {
            Some(close) => close,
            None => {
                proof {
                    lemma_first_at_none(template@, "}}"@, open + 2);
                }
                break;
            },
        };
        proof {
            lemma_first_at(template@, "}}"@, open + 2, close as int);
        }
        let t = trim(text_range(&chars, open + 2, close).as_str());
        if !t.as_str().is_empty() && !list_has(&found, t.as_str()) {
            assert(text::texts(found@.push(t)) == text::texts(found@).push(t@));
            found.push(t);
        }
        cursor = close + 2;
    }
    found
}

/// The message for tokens that are left.
pub open spec fn unresolved_message(tokens: Seq<Seq<char>>) -> Seq<char> {
    "callback template contains unresolved tokens: "@ + text::joined(tokens, ", "@)
}

/// Renders a template of which no token may be left.
pub fn render_template_strict(template: &str, vars: &TextMap<String>) -> (r: Result<
    String,
    ForemanError,
>)
    ensures
        match r {
            Ok(s) => s@ == rendered(template@, vars::entries_of(*vars)) && unresolved(s@).len() == 0,
            Err(e) => {
                let left = unresolved(rendered(template@, vars::entries_of(*vars)));
                left.len() > 0 && e@ == seq![unresolved_message(left)]
            },
        },
{
    let out = render_template(template, vars);
    let left = unresolved_template_tokens(out.as_str());
    assert(text::texts(left@).len() == left@.len());
    if left.len() == 0 {
        return Ok(out);
    }
    let mut message = "callback template contains unresolved tokens: ".to_owned();
    message.append(join(&left, ", ").as_str());
    Err(ForemanError::new(message))
}

/// Whether no text occurs twice and none is empty.
pub open spec fn distinct_texts(list: Seq<Seq<char>>) -> bool {
    &&& forall|i: int, j: int|
        #![trigger list[i], list[j]]
        0 <= i < j < list.len() ==> list[i] != list[j]
    &&& forall|i: int| 0 <= i < list.len() ==> (#[trigger] list[i]).len() > 0
}

/// No token is reported twice, and none is empty.
pub proof fn law_unresolved_tokens_are_distinct(s: Seq<char>)
    ensures
        distinct_texts(unresolved(s)),
{
    lemma_distinct(s, 0, Seq::empty());
}

proof fn lemma_distinct(s: Seq<char>, cursor: int, found: Seq<Seq<char>>)
    requires
        distinct_texts(found),
    ensures
        distinct_texts(tokens_from(s, cursor, found)),
    decreases s.len() - cursor,
{
    if let Some(open) = first_at(s, "{{"@, cursor) {
        if let Some(close) = first_at(s, "}}"@, open + 2) {
            if cursor <= open && open + 2 <= close && close + 2 <= s.len() {
                let t = text::trimmed(s.subrange(open + 2, close));
                let next = text::with_new(found, t);
                assert(distinct_texts(next)) by {
                    if next != found {
                        assert forall|i: int, j: int|
                            #![trigger next[i], next[j]]
                            0 <= i < j < next.len() implies next[i] != next[j] by {
                            if j == found.len() {
                                assert(found[i] != t);
                            }
                        }
                    }
                }
                lemma_distinct(s, close + 2, next);
            }
        }
    }
}

proof fn lemma_nothing_to_replace(s: Seq<char>, from: Seq<char>, to: Seq<char>)
    requires
        !text::has_text(s, from),
    ensures
        text::replaced(s, from, to) == s,
    decreases s.len(),
{
    if from.len() > 0 && s.len() >= from.len() {
        assert(!text::occurs_at(s, from, 0));
        let rest = s.skip(1);
        assert forall|i: int| !text::occurs_at(rest, from, i) by {
            if text::occurs_at(rest, from, i) {
                assert(s.subrange(i + 1, i + 1 + from.len()) == rest.subrange(i, i + from.len()));
                assert(text::occurs_at(s, from, i + 1));
            }
        }
        lemma_nothing_to_replace(rest, from, to);
        assert(seq![s[0]] + rest == s);
    }
}

/// A text without an opening pair of braces is rendered as it is, whatever the variables are, and
/// no token is left in it.
pub proof fn law_plain_text_is_rendered_as_it_is(
    template: Seq<char>,
    vars: Seq<(Seq<char>, Seq<char>)>,
)
    requires
        !text::has_text(template, "{{"@),
    ensures
        rendered(template, vars) == template,
        unresolved(template).len() == 0,
    decreases vars.len(),
{
    reveal_strlit("{{");
    lemma_first_at_none(template, "{{"@, 0);
    if vars.len() > 0 {
        law_plain_text_is_rendered_as_it_is(template, vars.drop_last());
        let t = token(vars.last().0);
        assert(t.take(2) == "{{"@);
        assert forall|i: int| !text::occurs_at(template, t, i) by {
            if text::occurs_at(template, t, i) {
                assert(template.subrange(i, i + 2) == template.subrange(i, i + t.len()).take(2));
                assert(text::occurs_at(template, "{{"@, i));
            }
        }
        lemma_nothing_to_replace(template, t, vars.last().1);
    }
}

/// Whether a text holds no brace.
pub open spec fn braceless(s: Seq<char>) -> bool {
    forall|i: int| 0 <= i < s.len() ==> #[trigger] s[i] != '{' && s[i] != '}'
}

proof fn lemma_other_token(key: Seq<char>, other: Seq<char>)
    requires
        braceless(key),
        key != other,
    ensures
        !text::has_text(token(key), token(other)),
{
    reveal_strlit("{{");
    reveal_strlit("}}");
    let t = token(key);
    let o = token(other);
    let n = key.len();
    assert forall|i: int| !text::occurs_at(t, o, i) by {
        if text::occurs_at(t, o, i) {
            let part = t.subrange(i, i + o.len());
            assert(part == o);
            assert(part[0] == t[i] && o[0] == '{');
            assert(part[1] == t[i + 1] && o[1] == '{');
            assert(o[o.len() - 1] == '}' && o[o.len() - 2] == '}');
            assert(part[o.len() - 1] == t[i + o.len() - 1]);
            assert(part[o.len() - 2] == t[i + o.len() - 2]);
            assert forall|j: int| 2 <= j < 2 + n implies #[trigger] t[j] != '{' && t[j] != '}' by {
                assert(t[j] == key[j - 2]);
            }
            assert(i == 0);
            assert(o.len() == t.len());
            assert(t == o);
            assert(t.subrange(2, 2 + n as int) == key);
            assert(o.subrange(2, 2 + n as int) == other);
        }
    }
}

proof fn lemma_whole_replaced(s: Seq<char>, to: Seq<char>)
    requires
        s.len() > 0,
    ensures
        text::replaced(s, s, to) == to,
{
    assert(s.subrange(0, s.len() as int) == s);
    assert(text::occurs_at(s, s, 0));
    let rest = s.skip(s.len() as int);
    assert(rest == Seq::<char>::empty());
    assert(text::replaced(rest, s, to) == rest);
    assert(to + rest == to);
}

/// A template that is one token becomes the value of its key, where that holds no opening pair of
/// braces itself.
pub proof fn law_lone_token_becomes_its_value(
    key: Seq<char>,
    vars: Seq<(Seq<char>, Seq<char>)>,
)
    requires
        braceless(key),
        text_map::value_of(vars, key) matches Some(v) ==> !text::has_text(v, "{{"@),
    ensures
        rendered(token(key), vars) == (match text_map::value_of(vars, key) {
            Some(v) => v,
            None => token(key),
        }),
        text_map::value_of(vars, key) matches Some(v) ==> unresolved(v).len() == 0,
    decreases vars.len(),
{
    reveal_strlit("{{");
    if let Some(v) = text_map::value_of(vars, key) {
        law_plain_text_is_rendered_as_it_is(v, Seq::empty());
    }
    if vars.len() > 0 {
        let before = vars.drop_last();
        law_lone_token_becomes_its_value(key, before);
        match text_map::value_of(before, key) {
            Some(v) => {
                law_plain_text_is_rendered_as_it_is(v, seq![vars.last()]);
                assert(seq![vars.last()].drop_last() == Seq::<(Seq<char>, Seq<char>)>::empty());
                assert(rendered(v, seq![vars.last()].drop_last()) == v);
            },
            None => if vars.last().0 == key {
                lemma_whole_replaced(token(key), vars.last().1);
            } else {
                lemma_other_token(key, vars.last().0);
                lemma_nothing_to_replace(token(key), token(vars.last().0), vars.last().1);
            },
        }
    }
}

} // verus!

//! Which events a callback takes, and how events are named.
use vstd::prelude::*;

use crate::text;
use crate::text::same_text;

verus! {

/// Whether a list of events holds `method`, or a star for all of them.
pub open spec fn lists(events: Seq<Seq<char>>, method: Seq<char>) -> bool {
    exists|i: int| 0 <= i < events.len() && ((#[trigger] events[i]) == "*"@ || events[i] == method)
}

/// Whether an event is taken: the override decides where there is one, else the fallback, and
/// without either every event is.
pub open spec fn allowed(
    method: Seq<char>,
    override_events: Option<Seq<Seq<char>>>,
    fallback_events: Option<Seq<Seq<char>>>,
) -> bool {
    match override_events {
        Some(events) => lists(events, method),
        None => match fallback_events {
            Some(events) => lists(events, method),
            None => true,
        },
    }
}

/// The texts behind an optional reference.
pub open spec fn opt_list(v: Option<&Vec<String>>) -> Option<Seq<Seq<char>>> {
    match v {
        Some(v) => Some(text::texts(v@)),
        None => None,
    }
}

/// Whether a list of events holds `method`, or a star for all of them.
fn list_allows(events: &Vec<String>, method: &str) -> (r: bool)
    ensures
        r == lists(text::texts(events@), method@),
{
    let mut i: usize = 0;
    while i < events.len()
        invariant
            i <= events@.len(),
            forall|j: int|
                0 <= j < i ==> (#[trigger] text::texts(events@)[j]) != "*"@ && text::texts(
                    events@,
                )[j] != method@,
        decreases events@.len() - i,
    {
        assert(text::texts(events@)[i as int] == events@[i as int]@);
        if same_text(events[i].as_str(), "*") || same_text(events[i].as_str(), method) {
            return true;
        }
        i += 1;
    }
    false
}

/// Whether an event is taken.
pub fn events_allowed(
    method: &str,
    override_events: Option<&Vec<String>>,
    fallback_events: Option<&Vec<String>>,
) -> (r: bool)
    ensures
        r == allowed(method@, opt_list(override_events), opt_list(fallback_events)),
{
    match override_events {
        Some(events) => list_allows(events, method),
        None => match fallback_events {
            Some(events) => list_allows(events, method),
            None => true,
        },
    }
}

/// Where an override lists the events, the fallback has no say.
pub proof fn law_override_decides(
    method: Seq<char>,
    events: Seq<Seq<char>>,
    fallback: Option<Seq<Seq<char>>>,
)
    ensures
        allowed(method, Some(events), fallback) == allowed(method, Some(events), None),
        events.contains("*"@) ==> allowed(method, Some(events), fallback),
{
    if events.contains("*"@) {
        let i = choose|i: int| 0 <= i < events.len() && events[i] == "*"@;
        assert(events[i] == "*"@);
    }
}

/// An event is taken exactly where the list that decides names it or holds a star; without a list
/// every event is taken.
pub proof fn law_lists_decide_which_events_are_taken(
    method: Seq<char>,
    own: Option<Seq<Seq<char>>>,
    fallback: Option<Seq<Seq<char>>>,
)
    ensures
        own is Some ==> (allowed(method, own, fallback) <==> own->0.contains(method)
            || own->0.contains("*"@)),
        own is None && fallback is Some ==> (allowed(method, own, fallback)
            <==> fallback->0.contains(method) || fallback->0.contains("*"@)),
        own is None && fallback is None ==> allowed(method, own, fallback),
        own matches Some(list) && list.len() == 0 ==> !allowed(method, own, fallback),
{
    if own is Some {
        lemma_lists(own->0, method);
    }
    if fallback is Some {
        lemma_lists(fallback->0, method);
    }
}

proof fn lemma_lists(events: Seq<Seq<char>>, method: Seq<char>)
    ensures
        lists(events, method) <==> events.contains(method) || events.contains("*"@),
{
    if lists(events, method) {
        let i = choose|i: int|
            0 <= i < events.len() && ((#[trigger] events[i]) == "*"@ || events[i] == method);
        assert(events.contains(events[i]));
    }
    if events.contains(method) {
        let i = choose|i: int| 0 <= i < events.len() && events[i] == method;
        assert(events[i] == method);
    }
    if events.contains("*"@) {
        let i = choose|i: int| 0 <= i < events.len() && events[i] == "*"@;
        assert(events[i] == "*"@);
    }
}

} // verus!

//! Maps of texts: variables of callbacks and the outcome of a project's callbacks.
use vstd::prelude::*;

use crate::constants;
use crate::text_map;
use crate::text_map::TextMap;

verus! {

/// The values of a map as texts.
pub open spec fn values_of(m: Map<Seq<char>, String>) -> Map<Seq<char>, Seq<char>> {
    m.map_values(|s: String| s@)
}

/// The entries of a map as texts, in their order.
pub open spec fn entries_of(m: TextMap<String>) -> Seq<(Seq<char>, Seq<char>)> {
    text_entries(m.items())
}

/// Entries as texts.
pub open spec fn text_entries(items: Seq<(Seq<char>, String)>) -> Seq<(Seq<char>, Seq<char>)> {
    items.map_values(|e: (Seq<char>, String)| (e.0, e.1@))
}

proof fn lemma_put_text(items: Seq<(Seq<char>, String)>, k: Seq<char>, v: String)
    ensures
        text_entries(text_map::put(items, k, v)) == text_map::put(text_entries(items), k, v@),
    decreases items.len(),
{
    let views = text_entries(items);
    if items.len() > 0 {
        assert(views[0].0 == items[0].0);
        lemma_put_text(items.skip(1), k, v);
        assert(text_entries(items.skip(1)) == views.skip(1));
        if items[0].0 == k {
            assert(text_entries(items.update(0, (k, v))) == views.update(0, (k, v@)));
        } else {
            let rest = text_map::put(items.skip(1), k, v);
            assert(text_entries(seq![items[0]] + rest) == seq![views[0]] + text_entries(rest));
        }
    } else {
        assert(text_entries(seq![(k, v)]) == seq![(k, v@)]);
    }
}

/// Gives `key` the value `value`, whatever it had before.
pub fn set_var(vars: &mut TextMap<String>, key: &str, value: String)
    ensures
        entries_of(*final(vars)) == text_map::put(entries_of(*old(vars)), key@, value@),
        values_of(final(vars)@) == values_of(old(vars)@).insert(key@, value@),
{
    let ghost before = vars@;
    proof {
        lemma_put_text(vars.items(), key@, value);
    }
    vars.insert(key.to_owned(), value);
    assert(values_of(vars@) == values_of(before).insert(key@, value@));
}

/// Adds the entries of `extra` to a map; they win over those that are there.
fn extend(base: &mut TextMap<String>, extra: &TextMap<String>)
    ensures
        final(base)@ == old(base)@.union_prefer_right(extra@),
{
    let n: usize = extra.len();
    let mut i: usize = 0;
    assert(extra.items().take(0) =~= Seq::<(Seq<char>, String)>::empty());
    assert(base@.union_prefer_right(text_map::map_of(extra.items().take(0))) == base@);
    while i < n
        invariant
            i <= n,
            n == extra.items().len(),
            base@ == old(base)@.union_prefer_right(
                text_map::map_of(extra.items().take(i as int)),
            ),
        decreases n - i,
    {
        proof {
            let part = extra.items().take(i + 1);
            assert(part.drop_last() == extra.items().take(i as int));
            assert(part.last() == extra.items()[i as int]);
            let before = text_map::map_of(extra.items().take(i as int));
            let (k, v) = extra.items()[i as int];
            assert(old(base)@.union_prefer_right(before).insert(k, v) == old(
                base,
            )@.union_prefer_right(before.insert(k, v)));
        }
        base.insert(extra.key_at(i).clone(), extra.value_at(i).clone());
        i += 1;
    }
    assert(extra.items().take(n as int) == extra.items());
}

/// The entries of both maps; those of the override win.
pub fn merge_vars(base: TextMap<String>, override_vars: Option<TextMap<String>>) -> (r: TextMap<
    String,
>)
    ensures
        r@ == (match override_vars {
            Some(extra) => base@.union_prefer_right(extra@),
            None => base@,
        }),
{
    let mut merged = base;
    if let Some(extra) = override_vars {
        extend(&mut merged, &extra);
    }
    merged
}

/// The names of what happens to a project.
pub open spec fn lifecycle_names() -> Set<Seq<char>> {
    set![
        constants::PROJECT_LIFECYCLE_START@,
        constants::PROJECT_LIFECYCLE_COMPACT@,
        constants::PROJECT_LIFECYCLE_STOP@,
        constants::PROJECT_LIFECYCLE_WORKER_COMPLETED@,
        constants::PROJECT_LIFECYCLE_WORKER_ABORTED@,
    ]
}

/// The outcome of a project's callbacks before any has run.
pub open spec fn nothing_run() -> Map<Seq<char>, Seq<char>> {
    Map::new(
        |k: Seq<char>| lifecycle_names().contains(k),
        |k: Seq<char>| constants::PROJECT_CALLBACK_STATUS_NEVER_RUN@,
    )
}

/// The outcome of a project's callbacks before any has run.
pub fn default_project_lifecycle_callback_status() -> (r: TextMap<String>)
    ensures
        values_of(r@) == nothing_run(),
{
    let mut status: TextMap<String> = TextMap::new();
    status.insert(
        constants::PROJECT_LIFECYCLE_START.to_owned(),
        constants::PROJECT_CALLBACK_STATUS_NEVER_RUN.to_owned(),
    );
    status.insert(
        constants::PROJECT_LIFECYCLE_COMPACT.to_owned(),
        constants::PROJECT_CALLBACK_STATUS_NEVER_RUN.to_owned(),
    );
    status.insert(
        constants::PROJECT_LIFECYCLE_STOP.to_owned(),
        constants::PROJECT_CALLBACK_STATUS_NEVER_RUN.to_owned(),
    );
    status.insert(
        constants::PROJECT_LIFECYCLE_WORKER_COMPLETED.to_owned(),
        constants::PROJECT_CALLBACK_STATUS_NEVER_RUN.to_owned(),
    );
    status.insert(
        constants::PROJECT_LIFECYCLE_WORKER_ABORTED.to_owned(),
        constants::PROJECT_CALLBACK_STATUS_NEVER_RUN.to_owned(),
    );
    assert(values_of(status@) == nothing_run());
    status
}

/// The outcome of a project's callbacks, with those that have not run.
pub fn normalize_project_lifecycle_callback_status(provided: TextMap<String>) -> (r: TextMap<
    String,
>)
    ensures
        values_of(r@) == nothing_run().union_prefer_right(values_of(provided@)),
{
    let status = default_project_lifecycle_callback_status();
    let ghost before = status@;
    let r = merge_vars(status, Some(provided));
    proof {
        assert(values_of(r@) == values_of(before).union_prefer_right(values_of(provided@)));
    }
    r
}

/// Every name of what can happen to a project has an outcome, whatever was provided.
pub proof fn law_lifecycle_status_is_complete(provided: Map<Seq<char>, Seq<char>>)
    ensures
        lifecycle_names().subset_of(nothing_run().union_prefer_right(provided).dom()),
        forall|k: Seq<char>|
            #[trigger] provided.dom().contains(k) ==> nothing_run().union_prefer_right(provided)[k]
                == provided[k],
{
}

} // verus!

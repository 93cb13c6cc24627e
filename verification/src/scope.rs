//! How the workers of a job get in each other's way.
use vstd::prelude::*;

use crate::error::ForemanError;
use crate::models::{OverlapRiskEntry, ProjectJobWorkerSpec};
use crate::text;
use crate::text::{chars_of, same_text, text_range, trim, trim_matches, trims_to_empty};
use crate::text_map::TextMap;
use crate::text_search::{
    contains, decimal_text, ends_with, join, list_has, split_whitespace, starts_with,
};

verus! {

/// The name of worker `i` where it has none of its own.
pub open spec fn default_name(i: int) -> Seq<char> {
    "worker-"@ + text::decimal((i + 1) as nat)
}

/// The name of worker `i`: its own, without white space around it, or else the default.
pub open spec fn worker_name(workers: Seq<ProjectJobWorkerSpec>, i: int) -> Seq<char> {
    match workers[i].name {
        Some(name) => if text::is_blank(name@) {
            default_name(i)
        } else {
            text::trimmed(name@)
        },
        None => default_name(i),
    }
}

/// The names of the workers.
pub open spec fn worker_names(workers: Seq<ProjectJobWorkerSpec>) -> Seq<Seq<char>> {
    Seq::new(workers.len(), |i: int| worker_name(workers, i))
}

/// Whether worker `j` has the name of an earlier worker.
pub open spec fn repeats(names: Seq<Seq<char>>, j: int) -> bool {
    exists|i: int| 0 <= i < j && #[trigger] names[i] == names[j]
}

/// Whether worker `j` is the first that has the name of an earlier one.
pub open spec fn first_repeat(names: Seq<Seq<char>>, j: int) -> bool {
    0 <= j < names.len() && repeats(names, j) && forall|k: int| 0 <= k < j ==> !repeats(names, k)
}

/// `s` without the leading steps to the same directory.
pub open spec fn without_dots(s: Seq<char>) -> Seq<char>
    decreases s.len(),
{
    if s.len() >= 2 && s[0] == '.' && s[1] == '/' {
        without_dots(s.skip(2))
    } else {
        s
    }
}

/// A path without white space and quotes around it, steps to the same directory before it and
/// slashes behind it.
pub open spec fn normalized(path: Seq<char>) -> Seq<char> {
    text::trim_end_class(
        without_dots(text::trim_class(path, true, "\"'"@)),
        false,
        "/"@,
    )
}

/// The paths, each normalized and each once, without those that are empty.
pub open spec fn scope_of(paths: Seq<Seq<char>>) -> Seq<Seq<char>>
    decreases paths.len(),
{
    if paths.len() == 0 {
        Seq::empty()
    } else {
        text::with_new(scope_of(paths.drop_last()), normalized(paths.last()))
    }
}

/// The declared paths of a name.
pub open spec fn declared_paths(
    declared: Map<Seq<char>, Vec<String>>,
    name: Seq<char>,
) -> Seq<Seq<char>> {
    if declared.dom().contains(name) {
        text::texts(declared[name]@)
    } else {
        Seq::empty()
    }
}

/// The punctuation around a word.
pub open spec fn word_marks() -> Seq<char> {
    ",:;()[]{}\"'`"@
}

/// Whether a word looks like a path.
pub open spec fn looks_like_path(word: Seq<char>) -> bool {
    text::has_text(word, "/"@) || text::ends(word, ".rs"@) || text::ends(word, ".md"@)
}

/// The hints among the words, each once.
pub open spec fn hints_of(list: Seq<Seq<char>>) -> Seq<Seq<char>>
    decreases list.len(),
{
    if list.len() == 0 {
        Seq::empty()
    } else {
        let before = hints_of(list.drop_last());
        let word = text::trim_class(list.last(), false, word_marks());
        if looks_like_path(word) {
            text::with_new(before, normalized(word))
        } else {
            before
        }
    }
}

/// The paths that a prompt hints at.
pub open spec fn path_hints(prompt: Seq<char>) -> Seq<Seq<char>> {
    hints_of(text::words(prompt))
}

/// The texts of `a` that are in `b` too.
pub open spec fn common(a: Seq<Seq<char>>, b: Seq<Seq<char>>) -> Seq<Seq<char>>
    decreases a.len(),
{
    if a.len() == 0 {
        Seq::empty()
    } else if b.contains(a.last()) {
        common(a.drop_last(), b).push(a.last())
    } else {
        common(a.drop_last(), b)
    }
}

/// Whether a text of one list begins with one of the other.
pub open spec fn nested(a: Seq<Seq<char>>, b: Seq<Seq<char>>) -> bool {
    exists|i: int, j: int|
        0 <= i < a.len() && 0 <= j < b.len() && (text::begins(
            #[trigger] a[i],
            #[trigger] b[j],
        ) || text::begins(b[j], a[i]))
}

/// Why two workers get in each other's way, and how much: five points for a path in common, or
/// else three for one path within another, and two for a hint in common.
pub struct Overlap {
    pub score: u8,
    pub reasons: Seq<Seq<char>>,
}

/// How two scopes overlap.
pub open spec fn scope_overlap(a: Seq<Seq<char>>, b: Seq<Seq<char>>) -> Overlap {
    if common(a, b).len() > 0 {
        Overlap {
            score: 5,
            reasons: seq!["declared path overlap: "@ + text::joined(common(a, b), ", "@)],
        }
    } else if nested(a, b) {
        Overlap { score: 3, reasons: seq!["scope path prefix overlap"@] }
    } else {
        Overlap { score: 0, reasons: Seq::empty() }
    }
}

/// How the scopes and the hints of two workers overlap.
pub open spec fn overlap(
    scope_a: Seq<Seq<char>>,
    scope_b: Seq<Seq<char>>,
    hints_a: Seq<Seq<char>>,
    hints_b: Seq<Seq<char>>,
) -> Overlap {
    let s = scope_overlap(scope_a, scope_b);
    let shared = common(hints_a, hints_b);
    if shared.len() > 0 {
        Overlap {
            score: (s.score + 2) as u8,
            reasons: s.reasons.push(
                "shared prompt path hints: "@ + text::joined(shared, ", "@),
            ),
        }
    } else {
        s
    }
}

/// The risk of a score.
pub open spec fn risk_of(score: u8) -> Seq<char> {
    if score >= 5 {
        "high"@
    } else if score >= 3 {
        "medium"@
    } else {
        "low"@
    }
}

/// The name of worker `i` in a list of names.
pub open spec fn name_at(names: Seq<Seq<char>>, i: int) -> Seq<char> {
    if i < names.len() {
        names[i]
    } else {
        default_name(i)
    }
}

/// What an entry of the matrix says.
pub struct EntryView {
    pub worker_a: Seq<char>,
    pub worker_b: Seq<char>,
    pub risk: Seq<char>,
    pub score: u8,
    pub reasons: Seq<Seq<char>>,
}

/// What an entry of the matrix says.
pub open spec fn entry_view(e: OverlapRiskEntry) -> EntryView {
    EntryView {
        worker_a: e.worker_a@,
        worker_b: e.worker_b@,
        risk: e.risk@,
        score: e.score,
        reasons: text::texts(e.reasons@),
    }
}

/// What the entries of the matrix say.
pub open spec fn entry_views(m: Seq<OverlapRiskEntry>) -> Seq<EntryView> {
    m.map_values(|e: OverlapRiskEntry| entry_view(e))
}

/// The scope of a worker: its own paths and those declared for its name.
pub open spec fn worker_scope(
    worker: ProjectJobWorkerSpec,
    name: Seq<char>,
    declared: Map<Seq<char>, Vec<String>>,
) -> Seq<Seq<char>> {
    scope_of(text::texts(worker.scope_paths@) + declared_paths(declared, name))
}

/// The entry of workers `i` and `j`.
pub open spec fn pair_entry(
    names: Seq<Seq<char>>,
    workers: Seq<ProjectJobWorkerSpec>,
    declared: Map<Seq<char>, Vec<String>>,
    i: int,
    j: int,
) -> EntryView {
    let a = name_at(names, i);
    let b = name_at(names, j);
    let o = overlap(
        worker_scope(workers[i], a, declared),
        worker_scope(workers[j], b, declared),
        path_hints(workers[i].prompt@),
        path_hints(workers[j].prompt@),
    );
    EntryView { worker_a: a, worker_b: b, risk: risk_of(o.score), score: o.score, reasons: o.reasons }
}

/// The entries of worker `i` with the workers from `i + 1` up to `end`.
pub open spec fn matrix_row(
    names: Seq<Seq<char>>,
    workers: Seq<ProjectJobWorkerSpec>,
    declared: Map<Seq<char>, Vec<String>>,
    i: int,
    end: int,
) -> Seq<EntryView> {
    Seq::new((end - i - 1) as nat, |k: int| pair_entry(names, workers, declared, i, i + 1 + k))
}

/// The entries of the first `n` workers, each with those after it.
pub open spec fn matrix_rows(
    names: Seq<Seq<char>>,
    workers: Seq<ProjectJobWorkerSpec>,
    declared: Map<Seq<char>, Vec<String>>,
    n: int,
) -> Seq<EntryView>
    decreases n,
{
    if n <= 0 {
        Seq::empty()
    } else {
        matrix_rows(names, workers, declared, n - 1) + matrix_row(
            names,
            workers,
            declared,
            n - 1,
            workers.len() as int,
        )
    }
}

/// The name of worker `i` where it has none of its own.
fn make_default_name(i: usize) -> (r: String)
    ensures
        r@ == default_name(i as int),
{
    let mut name = "worker-".to_owned();
    name.append(decimal_text(i as u128 + 1).as_str());
    name
}

/// The names of the workers, or an error where two have the same.
pub fn assign_worker_names(workers: &Vec<ProjectJobWorkerSpec>) -> (r: Result<
    Vec<String>,
    ForemanError,
>)
    ensures
        match r {
            Ok(names) => {
                &&& text::texts(names@) == worker_names(workers@)
                &&& forall|j: int| 0 <= j < workers@.len() ==> !repeats(worker_names(workers@), j)
            },
            Err(e) => exists|j: int|
                #[trigger] first_repeat(worker_names(workers@), j) && e@ == seq![
                    "duplicate worker name '"@ + worker_names(workers@)[j] + "'"@,
                ],
        },
{
    let ghost all = worker_names(workers@);
    let mut names: Vec<String> = Vec::new();
    let mut i: usize = 0;
    while i < workers.len()
        invariant
            i <= workers@.len(),
            all == worker_names(workers@),
            text::texts(names@) == all.take(i as int),
            forall|j: int| 0 <= j < i ==> !repeats(all, j),
        decreases workers@.len() - i,
    {
        let name: String = match &workers[i].name {
            Some(own) => if trims_to_empty(own.as_str()) {
                make_default_name(i)
            } else {
                trim(own.as_str())
            },
            None => make_default_name(i),
        };
        assert(name@ == all[i as int]);
        if list_has(&names, name.as_str()) {
            proof {
                let k = choose|k: int| 0 <= k < all.take(i as int).len() && all.take(i as int)[k]
                    == name@;
                assert(all[k] == all[i as int]);
                assert(first_repeat(all, i as int));
            }
            let mut message = "duplicate worker name '".to_owned();
            message.append(name.as_str());
            message.append("'");
            return Err(ForemanError::new(message));
        }
        proof {
            assert(!repeats(all, i as int)) by {
                if repeats(all, i as int) {
                    let k = choose|k: int| 0 <= k < i && #[trigger] all[k] == all[i as int];
                    assert(all.take(i as int)[k] == name@);
                }
            }
            assert(text::texts(names@.push(name)) == all.take(i + 1));
        }
        names.push(name);
        i += 1;
    }
    assert(all.take(i as int) == all);
    Ok(names)
}

/// A path without what does not count.
pub fn normalize_scope_path(path: &str) -> (r: String)
    ensures
        r@ == normalized(path@),
{
    let inner = trim_matches(path, true, "\"'");
    let chars = chars_of(inner.as_str());
    let n: usize = chars.len();
    let mut i: usize = 0;
    assert(chars@.skip(0) == chars@);
    while n - i >= 2 && chars[i] == '.' && chars[i + 1] == '/'
        invariant
            i <= n,
            n == chars@.len(),
            without_dots(chars@.skip(i as int)) == without_dots(chars@),
        decreases n - i,
    {
        assert(chars@.skip(i as int).skip(2) == chars@.skip(i + 2));
        i += 2;
    }
    let ghost rest = chars@.skip(i as int);
    let mut j: usize = n;
    proof {
        reveal_strlit("/");
        assert("/"@ == seq!['/']);
        assert(chars@.subrange(i as int, n as int) == rest);
    }
    while j > i && chars[j - 1] == '/'
        invariant
            i <= j <= n,
            n == chars@.len(),
            "/"@ == seq!['/'],
            text::trim_end_class(chars@.subrange(i as int, j as int), false, "/"@)
                == text::trim_end_class(rest, false, "/"@),
        decreases j,
    {
        proof {
            let part = chars@.subrange(i as int, j as int);
            assert(part.drop_last() == chars@.subrange(i as int, j - 1));
            assert("/"@[0] == '/');
            assert(text::in_class(part.last(), false, "/"@));
        }
        j -= 1;
    }
    proof {
        let part = chars@.subrange(i as int, j as int);
        assert(text::trim_end_class(part, false, "/"@) == part) by {
            if part.len() > 0 {
                assert(part.last() == chars@[j - 1]);
                assert(!"/"@.contains(part.last()));
            }
        }
    }
    text_range(&chars, i, j)
}

/// Adds a text to a list, unless it is empty or there already.
fn push_new(list: &mut Vec<String>, t: String)
    ensures
        text::texts(final(list)@) == text::with_new(text::texts(old(list)@), t@),
{
    if !t.as_str().is_empty() && !list_has(list, t.as_str()) {
        assert(text::texts(list@.push(t)) == text::texts(list@).push(t@));
        list.push(t);
    }
}

/// Adds the normalized paths to a scope.
fn push_paths(scope: &mut Vec<String>, paths: &Vec<String>, Ghost(before): Ghost<Seq<Seq<char>>>)
    requires
        text::texts(old(scope)@) == scope_of(before),
    ensures
        text::texts(final(scope)@) == scope_of(before + text::texts(paths@)),
{
    let ghost list = text::texts(paths@);
    let mut i: usize = 0;
    assert(before + list.take(0) == before);
    while i < paths.len()
        invariant
            i <= paths@.len(),
            list == text::texts(paths@),
            text::texts(scope@) == scope_of(before + list.take(i as int)),
        decreases paths@.len() - i,
    {
        proof {
            let part = before + list.take(i + 1);
            assert(part.drop_last() == before + list.take(i as int));
            assert(part.last() == paths@[i as int]@);
        }
        push_new(scope, normalize_scope_path(paths[i].as_str()));
        i += 1;
    }
    assert(list.take(i as int) == list);
}

/// The scope of a worker: its own paths and those declared for it.
pub fn combined_scope_paths(
    worker: Option<&ProjectJobWorkerSpec>,
    declared_scope_paths: Option<&Vec<String>>,
) -> (r: Vec<String>)
    ensures
        text::texts(r@) == scope_of(
            (match worker {
                Some(w) => text::texts(w.scope_paths@),
                None => Seq::empty(),
            }) + (match declared_scope_paths {
                Some(v) => text::texts(v@),
                None => Seq::empty(),
            }),
        ),
{
    let mut scope: Vec<String> = Vec::new();
    let ghost none = Seq::<Seq<char>>::empty();
    assert(text::texts(scope@) == scope_of(none));
    let ghost own = match worker {
        Some(w) => text::texts(w.scope_paths@),
        None => none,
    };
    if let Some(w) = worker {
        push_paths(&mut scope, &w.scope_paths, Ghost(none));
    }
    assert(none + own == own);
    if let Some(v) = declared_scope_paths {
        push_paths(&mut scope, v, Ghost(own));
    }
    assert(own + none == own);
    scope
}

/// The paths that a prompt hints at.
pub fn extract_path_hints(prompt: &str) -> (r: Vec<String>)
    ensures
        text::texts(r@) == path_hints(prompt@),
{
    let list = split_whitespace(prompt);
    let ghost all = text::texts(list@);
    let mut hints: Vec<String> = Vec::new();
    let mut i: usize = 0;
    assert(text::texts(hints@) == hints_of(all.take(0)));
    while i < list.len()
        invariant
            i <= list@.len(),
            all == text::texts(list@),
            text::texts(hints@) == hints_of(all.take(i as int)),
        decreases list@.len() - i,
    {
        proof {
            let part = all.take(i + 1);
            assert(part.drop_last() == all.take(i as int));
            assert(part.last() == list@[i as int]@);
        }
        let word = trim_matches(list[i].as_str(), false, ",:;()[]{}\"'`");
        if contains(word.as_str(), "/") || ends_with(word.as_str(), ".rs") || ends_with(
            word.as_str(),
            ".md",
        ) {
            push_new(&mut hints, normalize_scope_path(word.as_str()));
        }
        i += 1;
    }
    assert(all.take(i as int) == all);
    hints
}

/// The texts of `a` that are in `b` too.
fn common_texts(a: &Vec<String>, b: &Vec<String>) -> (r: Vec<String>)
    ensures
        text::texts(r@) == common(text::texts(a@), text::texts(b@)),
{
    let ghost all = text::texts(a@);
    let mut r: Vec<String> = Vec::new();
    let mut i: usize = 0;
    assert(text::texts(r@) == common(all.take(0), text::texts(b@)));
    while i < a.len()
        invariant
            i <= a@.len(),
            all == text::texts(a@),
            text::texts(r@) == common(all.take(i as int), text::texts(b@)),
        decreases a@.len() - i,
    {
        proof {
            let part = all.take(i + 1);
            assert(part.drop_last() == all.take(i as int));
            assert(part.last() == a@[i as int]@);
        }
        if list_has(b, a[i].as_str()) {
            let one = a[i].clone();
            assert(text::texts(r@.push(one)) == text::texts(r@).push(one@));
            r.push(one);
        }
        i += 1;
    }
    assert(all.take(i as int) == all);
    r
}

/// Whether a text of one list begins with one of the other.
fn any_nested(a: &Vec<String>, b: &Vec<String>) -> (r: bool)
    ensures
        r == nested(text::texts(a@), text::texts(b@)),
{
    let ghost ta = text::texts(a@);
    let ghost tb = text::texts(b@);
    let mut i: usize = 0;
    while i < a.len()
        invariant
            i <= a@.len(),
            ta == text::texts(a@),
            tb == text::texts(b@),
            forall|x: int, y: int|
                0 <= x < i && 0 <= y < tb.len() ==> !text::begins(
                    #[trigger] ta[x],
                    #[trigger] tb[y],
                ) && !text::begins(tb[y], ta[x]),
        decreases a@.len() - i,
    {
        let mut j: usize = 0;
        while j < b.len()
            invariant
                i < a@.len(),
                j <= b@.len(),
                ta == text::texts(a@),
                tb == text::texts(b@),
                forall|y: int|
                    0 <= y < j ==> !text::begins(ta[i as int], #[trigger] tb[y]) && !text::begins(
                        tb[y],
                        ta[i as int],
                    ),
            decreases b@.len() - j,
        {
            assert(ta[i as int] == a@[i as int]@ && tb[j as int] == b@[j as int]@);
            if starts_with(a[i].as_str(), b[j].as_str()) || starts_with(
                b[j].as_str(),
                a[i].as_str(),
            ) {
                assert(nested(ta, tb)) by {
                    assert(text::begins(ta[i as int], tb[j as int]) || text::begins(
                        tb[j as int],
                        ta[i as int],
                    ));
                }
                return true;
            }
            j += 1;
        }
        i += 1;
    }
    false
}

/// The entry for two workers, from their scopes and their hints.
fn judge_pair(
    worker_a: String,
    worker_b: String,
    scope_a: &Vec<String>,
    scope_b: &Vec<String>,
    hints_a: &Vec<String>,
    hints_b: &Vec<String>,
) -> (r: OverlapRiskEntry)
    ensures
        ({
            let o = overlap(
                text::texts(scope_a@),
                text::texts(scope_b@),
                text::texts(hints_a@),
                text::texts(hints_b@),
            );
            entry_view(r) == (EntryView {
                worker_a: worker_a@,
                worker_b: worker_b@,
                risk: risk_of(o.score),
                score: o.score,
                reasons: o.reasons,
            })
        }),
{
    let mut reasons: Vec<String> = Vec::new();
    let mut score: u8 = 0;
    let exact = common_texts(scope_a, scope_b);
    assert(text::texts(exact@).len() == exact@.len());
    let ghost s = scope_overlap(text::texts(scope_a@), text::texts(scope_b@));
    if exact.len() > 0 {
        score = 5;
        let mut reason = "declared path overlap: ".to_owned();
        reason.append(join(&exact, ", ").as_str());
        reasons.push(reason);
        assert(text::texts(reasons@) == seq![reason@]);
    } else if any_nested(scope_a, scope_b) {
        score = 3;
        reasons.push("scope path prefix overlap".to_owned());
        assert(text::texts(reasons@) == seq!["scope path prefix overlap"@]);
    }
    assert(text::texts(reasons@) == s.reasons);
    let shared = common_texts(hints_a, hints_b);
    assert(text::texts(shared@).len() == shared@.len());
    if shared.len() > 0 {
        score = score + 2;
        let mut reason = "shared prompt path hints: ".to_owned();
        reason.append(join(&shared, ", ").as_str());
        assert(text::texts(reasons@.push(reason)) == text::texts(reasons@).push(reason@));
        reasons.push(reason);
    }
    let risk = if score >= 5 {
        "high"
    } else if score >= 3 {
        "medium"
    } else {
        "low"
    };
    OverlapRiskEntry { worker_a, worker_b, risk: risk.to_owned(), score, reasons }
}

/// The name of worker `i` in a list of names.
fn pick_name(names: &Vec<String>, i: usize) -> (r: String)
    ensures
        r@ == name_at(text::texts(names@), i as int),
{
    if i < names.len() {
        names[i].clone()
    } else {
        make_default_name(i)
    }
}

/// The scope of worker `i`.
fn scope_for(
    workers: &Vec<ProjectJobWorkerSpec>,
    i: usize,
    name: &str,
    declared: &TextMap<Vec<String>>,
) -> (r: Vec<String>)
    requires
        i < workers@.len(),
    ensures
        text::texts(r@) == worker_scope(workers@[i as int], name@, declared@),
{
    combined_scope_paths(Some(&workers[i]), declared.get(name))
}

/// For each two workers, how much they get in each other's way.
pub fn build_overlap_matrix(
    names: &Vec<String>,
    workers: &Vec<ProjectJobWorkerSpec>,
    declared_scope_paths: &TextMap<Vec<String>>,
) -> (r: Vec<OverlapRiskEntry>)
    ensures
        entry_views(r@) == matrix_rows(
            text::texts(names@),
            workers@,
            declared_scope_paths@,
            workers@.len() as int,
        ),
{
    let ghost tn = text::texts(names@);
    let ghost td = declared_scope_paths@;
    let n: usize = workers.len();
    let mut matrix: Vec<OverlapRiskEntry> = Vec::new();
    let mut i: usize = 0;
    assert(entry_views(matrix@) == matrix_rows(tn, workers@, td, 0));
    while i < n
        invariant
            i <= n,
            n == workers@.len(),
            tn == text::texts(names@),
            td == declared_scope_paths@,
            entry_views(matrix@) == matrix_rows(tn, workers@, td, i as int),
        decreases n - i,
    {
        let ghost before = entry_views(matrix@);
        let mut j: usize = i + 1;
        assert(before + matrix_row(tn, workers@, td, i as int, j as int) == before);
        while j < n
            invariant
                i < j <= n,
                n == workers@.len(),
                tn == text::texts(names@),
                td == declared_scope_paths@,
                entry_views(matrix@) == before + matrix_row(tn, workers@, td, i as int, j as int),
            decreases n - j,
        {
            let a = pick_name(names, i);
            let b = pick_name(names, j);
            let scope_a = scope_for(workers, i, a.as_str(), declared_scope_paths);
            let scope_b = scope_for(workers, j, b.as_str(), declared_scope_paths);
            let hints_a = extract_path_hints(workers[i].prompt.as_str());
            let hints_b = extract_path_hints(workers[j].prompt.as_str());
            let entry = judge_pair(a, b, &scope_a, &scope_b, &hints_a, &hints_b);
            proof {
                assert(entry_view(entry) == pair_entry(tn, workers@, td, i as int, j as int));
                assert(matrix_row(tn, workers@, td, i as int, j + 1) == matrix_row(
                    tn,
                    workers@,
                    td,
                    i as int,
                    j as int,
                ).push(entry_view(entry)));
                assert(entry_views(matrix@.push(entry)) == entry_views(matrix@).push(
                    entry_view(entry),
                ));
            }
            matrix.push(entry);
            j += 1;
        }
        i += 1;
    }
    matrix
}

/// How many entries of the matrix are of high risk.
pub open spec fn high_count(m: Seq<EntryView>) -> nat
    decreases m.len(),
{
    if m.len() == 0 {
        0
    } else {
        high_count(m.drop_last()) + (if m.last().risk == "high"@ {
            1nat
        } else {
            0nat
        })
    }
}

/// How many entries of the matrix are of high risk.
pub fn count_high_risk(m: &Vec<OverlapRiskEntry>) -> (r: usize)
    ensures
        r == high_count(entry_views(m@)),
        r <= m@.len(),
{
    let ghost all = entry_views(m@);
    let mut count: usize = 0;
    let mut i: usize = 0;
    assert(high_count(all.take(0)) == 0);
    while i < m.len()
        invariant
            i <= m@.len(),
            all == entry_views(m@),
            count == high_count(all.take(i as int)),
            count <= i,
        decreases m@.len() - i,
    {
        proof {
            let part = all.take(i + 1);
            assert(part.drop_last() == all.take(i as int));
            assert(part.last() == entry_view(m@[i as int]));
        }
        if same_text(m[i].risk.as_str(), "high") {
            count += 1;
        }
        i += 1;
    }
    assert(all.take(i as int) == all);
    count
}

/// The matrix has one entry for each two workers.
pub proof fn law_one_entry_per_pair(
    names: Seq<Seq<char>>,
    workers: Seq<ProjectJobWorkerSpec>,
    declared: Map<Seq<char>, Vec<String>>,
)
    ensures
        2 * matrix_rows(names, workers, declared, workers.len() as int).len() == workers.len() * (
        workers.len() - 1),
{
    lemma_rows_len(names, workers, declared, workers.len() as int);
    let n = workers.len() as int;
    assert(n * (2 * n - n - 1) == n * (n - 1)) by (nonlinear_arith);
}

proof fn lemma_rows_len(
    names: Seq<Seq<char>>,
    workers: Seq<ProjectJobWorkerSpec>,
    declared: Map<Seq<char>, Vec<String>>,
    n: int,
)
    requires
        0 <= n <= workers.len(),
    ensures
        2 * matrix_rows(names, workers, declared, n).len() == n * (2 * workers.len() - n - 1),
    decreases n,
{
    let total = workers.len() as int;
    if n > 0 {
        lemma_rows_len(names, workers, declared, n - 1);
        assert((n - 1) * (2 * total - (n - 1) - 1) + 2 * (total - n) == n * (2 * total - n - 1))
            by (nonlinear_arith);
    } else {
        assert(0 * (2 * total - 0 - 1) == 0) by (nonlinear_arith);
    }
}

/// Two workers whose scopes have a path in common are a high risk.
pub proof fn law_common_path_is_high_risk(
    scope_a: Seq<Seq<char>>,
    scope_b: Seq<Seq<char>>,
    hints_a: Seq<Seq<char>>,
    hints_b: Seq<Seq<char>>,
    path: Seq<char>,
)
    requires
        scope_a.contains(path),
        scope_b.contains(path),
    ensures
        risk_of(overlap(scope_a, scope_b, hints_a, hints_b).score) == "high"@,
{
    lemma_common_has(scope_a, scope_b, path);
}

proof fn lemma_common_has(a: Seq<Seq<char>>, b: Seq<Seq<char>>, t: Seq<char>)
    requires
        a.contains(t),
        b.contains(t),
    ensures
        common(a, b).contains(t),
    decreases a.len(),
{
    let i = choose|i: int| 0 <= i < a.len() && a[i] == t;
    if i == a.len() - 1 {
        assert(common(a, b).last() == t);
    } else {
        assert(a.drop_last()[i] == t);
        lemma_common_has(a.drop_last(), b, t);
        let inner = common(a.drop_last(), b);
        let k = choose|k: int| 0 <= k < inner.len() && inner[k] == t;
        assert(common(a, b)[k] == t);
    }
}

proof fn lemma_common_in_both(a: Seq<Seq<char>>, b: Seq<Seq<char>>)
    ensures
        forall|k: int|
            0 <= k < common(a, b).len() ==> a.contains(#[trigger] common(a, b)[k]) && b.contains(
                common(a, b)[k],
            ),
    decreases a.len(),
{
    if a.len() > 0 {
        let before = common(a.drop_last(), b);
        lemma_common_in_both(a.drop_last(), b);
        assert forall|k: int| 0 <= k < common(a, b).len() implies a.contains(
            #[trigger] common(a, b)[k],
        ) && b.contains(common(a, b)[k]) by {
            if k < before.len() {
                assert(common(a, b)[k] == before[k]);
                let m = choose|m: int| 0 <= m < a.drop_last().len() && a.drop_last()[m] == before[k];
                assert(a[m] == before[k]);
            } else {
                assert(a[a.len() - 1] == a.last());
            }
        }
    }
}

/// Whether two lists have a text in common.
pub open spec fn meet(a: Seq<Seq<char>>, b: Seq<Seq<char>>) -> bool {
    exists|i: int, j: int| 0 <= i < a.len() && 0 <= j < b.len() && #[trigger] a[i] == #[trigger] b[j]
}

proof fn lemma_common_meets(a: Seq<Seq<char>>, b: Seq<Seq<char>>)
    ensures
        common(a, b).len() > 0 <==> meet(a, b),
{
    lemma_common_in_both(a, b);
    if common(a, b).len() > 0 {
        let t = common(a, b)[0];
        let i = choose|i: int| 0 <= i < a.len() && a[i] == t;
        let j = choose|j: int| 0 <= j < b.len() && b[j] == t;
        assert(a[i] == b[j]);
    }
    if meet(a, b) {
        let (i, j) = choose|i: int, j: int|
            0 <= i < a.len() && 0 <= j < b.len() && #[trigger] a[i] == #[trigger] b[j];
        assert(b.contains(b[j]));
        assert(a.contains(a[i]));
        lemma_common_has(a, b, a[i]);
    }
}

/// The risk of two workers comes from what they touch, and from nothing else: a path in common
/// makes it high, a path of one below a path of the other medium, or high where their prompts
/// share a path as well, and a path that only their prompts share leaves it low. Without any of
/// these the score is zero, the risk is low and no reason is given; with one of them a reason is.
pub proof fn law_risk_comes_from_what_workers_share(
    scope_a: Seq<Seq<char>>,
    scope_b: Seq<Seq<char>>,
    hints_a: Seq<Seq<char>>,
    hints_b: Seq<Seq<char>>,
)
    ensures
        ({
            let o = overlap(scope_a, scope_b, hints_a, hints_b);
            let same = meet(scope_a, scope_b);
            let below = exists|i: int, j: int|
                0 <= i < scope_a.len() && 0 <= j < scope_b.len() && (text::begins(
                    #[trigger] scope_a[i],
                    #[trigger] scope_b[j],
                ) || text::begins(scope_b[j], scope_a[i]));
            let hinted = meet(hints_a, hints_b);
            &&& !same && !below && !hinted ==> o.score == 0 && o.reasons.len() == 0 && risk_of(
                o.score,
            ) == "low"@
            &&& same && !hinted ==> o.score == 5 && o.reasons.len() == 1
            &&& same && hinted ==> o.score == 7 && o.reasons.len() == 2
            &&& !same && below && !hinted ==> o.score == 3 && o.reasons.len() == 1
            &&& !same && below && hinted ==> o.score == 5 && o.reasons.len() == 2
            &&& !same && !below && hinted ==> o.score == 2 && o.reasons.len() == 1
            &&& same ==> risk_of(o.score) == "high"@
            &&& !same && below && hinted ==> risk_of(o.score) == "high"@
            &&& !same && below && !hinted ==> risk_of(o.score) == "medium"@
            &&& !same && !below ==> risk_of(o.score) == "low"@
        }),
{
    lemma_common_meets(scope_a, scope_b);
    lemma_common_meets(hints_a, hints_b);
}

/// A pair of workers is judged by its own scopes and prompts, under its own names, and so is every
/// pair in the matrix.
pub proof fn law_entries_judge_their_own_pair(
    names: Seq<Seq<char>>,
    workers: Seq<ProjectJobWorkerSpec>,
    declared: Map<Seq<char>, Vec<String>>,
    i: int,
    j: int,
)
    requires
        0 <= i < j < workers.len(),
        names.len() == workers.len(),
    ensures
        ({
            let e = pair_entry(names, workers, declared, i, j);
            let scope_i = worker_scope(workers[i], names[i], declared);
            let scope_j = worker_scope(workers[j], names[j], declared);
            let hints_i = path_hints(workers[i].prompt@);
            let hints_j = path_hints(workers[j].prompt@);
            &&& e.worker_a == names[i]
            &&& e.worker_b == names[j]
            &&& e.risk == "high"@ <==> e.score >= 5
            &&& e.risk == "medium"@ <==> 3 <= e.score < 5
            &&& e.risk == "low"@ <==> e.score < 3
            &&& meet(scope_i, scope_j) ==> e.risk == "high"@
            &&& e.risk != "low"@ ==> e.reasons.len() > 0 && (meet(scope_i, scope_j) || nested(
                scope_i,
                scope_j,
            ))
            &&& e.score == 0 <==> !meet(scope_i, scope_j) && !nested(scope_i, scope_j) && !meet(
                hints_i,
                hints_j,
            )
        }),
{
    reveal_strlit("high");
    reveal_strlit("medium");
    reveal_strlit("low");
    assert("high"@.len() == 4 && "medium"@.len() == 6 && "low"@.len() == 3);
    let scope_i = worker_scope(workers[i], names[i], declared);
    let scope_j = worker_scope(workers[j], names[j], declared);
    let hints_i = path_hints(workers[i].prompt@);
    let hints_j = path_hints(workers[j].prompt@);
    law_risk_comes_from_what_workers_share(scope_i, scope_j, hints_i, hints_j);
    lemma_common_meets(scope_i, scope_j);
    lemma_common_meets(hints_i, hints_j);
}

proof fn lemma_with_new_has(list: Seq<Seq<char>>, t: Seq<char>, x: Seq<char>)
    ensures
        text::with_new(list, t).contains(x) <==> list.contains(x) || (x == t && t.len() > 0),
{
    let next = text::with_new(list, t);
    if t.len() > 0 && !list.contains(t) {
        if next.contains(x) {
            let k = choose|k: int| 0 <= k < next.len() && next[k] == x;
            if k < list.len() {
                assert(list[k] == x);
            }
        }
        if list.contains(x) {
            let k = choose|k: int| 0 <= k < list.len() && list[k] == x;
            assert(next[k] == x);
        }
        if x == t {
            assert(next[list.len() as int] == x);
        }
    }
}

/// The scope of paths holds the normal form of every path that is not empty, and nothing else.
pub proof fn law_scope_holds_every_path(paths: Seq<Seq<char>>, x: Seq<char>)
    ensures
        scope_of(paths).contains(x) <==> x.len() > 0 && exists|i: int|
            0 <= i < paths.len() && normalized(#[trigger] paths[i]) == x,
    decreases paths.len(),
{
    if paths.len() > 0 {
        let rest = paths.drop_last();
        law_scope_holds_every_path(rest, x);
        lemma_with_new_has(scope_of(rest), normalized(paths.last()), x);
        if exists|i: int| 0 <= i < rest.len() && normalized(#[trigger] rest[i]) == x {
            let i = choose|i: int| 0 <= i < rest.len() && normalized(#[trigger] rest[i]) == x;
            assert(paths[i] == rest[i]);
        }
        if exists|i: int| 0 <= i < paths.len() && normalized(#[trigger] paths[i]) == x {
            let i = choose|i: int| 0 <= i < paths.len() && normalized(#[trigger] paths[i]) == x;
            if i < rest.len() {
                assert(rest[i] == paths[i]);
            }
        }
        assert(paths[paths.len() - 1] == paths.last());
    }
}

/// A worker keeps its own name, without white space around it; one without gets its number, from
/// one on.
pub proof fn law_workers_keep_their_names(workers: Seq<ProjectJobWorkerSpec>, i: int)
    requires
        0 <= i < workers.len(),
    ensures
        worker_names(workers).len() == workers.len(),
        workers[i].name is Some && !text::is_blank(workers[i].name->0@) ==> worker_names(workers)[i]
            == text::trimmed(workers[i].name->0@),
        workers[i].name is None || text::is_blank(workers[i].name->0@) ==> worker_names(workers)[i]
            == "worker-"@ + text::decimal((i + 1) as nat),
{
}

/// Every pair of workers has its entry in the matrix.
pub proof fn law_every_pair_is_in_the_matrix(
    names: Seq<Seq<char>>,
    workers: Seq<ProjectJobWorkerSpec>,
    declared: Map<Seq<char>, Vec<String>>,
    i: int,
    j: int,
)
    requires
        0 <= i < j < workers.len(),
    ensures
        matrix_rows(names, workers, declared, workers.len() as int).contains(
            pair_entry(names, workers, declared, i, j),
        ),
{
    lemma_pair_is_in_rows(names, workers, declared, i, j, workers.len() as int);
}

proof fn lemma_pair_is_in_rows(
    names: Seq<Seq<char>>,
    workers: Seq<ProjectJobWorkerSpec>,
    declared: Map<Seq<char>, Vec<String>>,
    i: int,
    j: int,
    n: int,
)
    requires
        0 <= i < j < workers.len(),
        i < n <= workers.len(),
    ensures
        matrix_rows(names, workers, declared, n).contains(
            pair_entry(names, workers, declared, i, j),
        ),
    decreases n,
{
    let e = pair_entry(names, workers, declared, i, j);
    let before = matrix_rows(names, workers, declared, n - 1);
    let row = matrix_row(names, workers, declared, n - 1, workers.len() as int);
    let all = matrix_rows(names, workers, declared, n);
    if i == n - 1 {
        assert(row[j - i - 1] == e);
        assert(all[before.len() + (j - i - 1)] == e);
    } else {
        lemma_pair_is_in_rows(names, workers, declared, i, j, n - 1);
        let k = choose|k: int| 0 <= k < before.len() && before[k] == e;
        assert(all[k] == e);
    }
}

/// The pairs of high risk are counted, each once.
pub proof fn law_high_risks_are_counted(m: Seq<EntryView>)
    ensures
        high_count(m) == m.filter(|e: EntryView| e.risk == "high"@).len(),
    decreases m.len(),
{
    reveal(Seq::filter);
    if m.len() > 0 {
        law_high_risks_are_counted(m.drop_last());
    }
}

/// A word of a prompt hints at a path where it has a slash or ends like a file that is known; other
/// words hint at nothing, and no hint is told twice.
pub proof fn law_words_hint_at_paths(list: Seq<Seq<char>>, word: Seq<char>, x: Seq<char>)
    requires
        text::trim_class(word, false, word_marks()) == word,
    ensures
        text::has_text(word, "/"@) || text::ends(word, ".rs"@) || text::ends(word, ".md"@) ==> (
        hints_of(list.push(word)).contains(x) <==> hints_of(list).contains(x) || (x.len() > 0
            && normalized(word) == x)),
        !text::has_text(word, "/"@) && !text::ends(word, ".rs"@) && !text::ends(word, ".md"@)
            ==> hints_of(list.push(word)) == hints_of(list),
        hints_of(Seq::<Seq<char>>::empty()).len() == 0,
{
    assert(list.push(word).drop_last() == list);
    lemma_with_new_has(hints_of(list), normalized(word), x);
}

/// A path without blanks, quotes or slashes at its ends stays as it is, and is found again without
/// the dot before it and the slash behind it.
pub proof fn law_paths_are_told_the_same_way(p: Seq<char>)
    requires
        p.len() > 0,
        !text::is_white(p[0]) && p[0] != '"' && p[0] != '\'' && p[0] != '.',
        !text::is_white(p.last()) && p.last() != '"' && p.last() != '\'' && p.last() != '/',
    ensures
        normalized(p) == p,
        normalized(seq!['.', '/'] + p) == p,
        normalized(p + seq!['/']) == p,
        normalized(seq!['"'] + p + seq!['"']) == p,
{
    reveal_strlit("\"'");
    reveal_strlit("/");
    let quotes = "\"'"@;
    let slash = "/"@;
    assert(quotes.len() == 2 && quotes[0] == '"' && quotes[1] == '\'');
    assert(slash.len() == 1 && slash[0] == '/');
    assert(!quotes.contains(p[0]) && !quotes.contains(p.last()));
    assert(!slash.contains(p.last()));
    assert(slash.contains('/'));
    assert(!text::in_class(p[0], true, quotes));
    assert(!text::in_class(p.last(), true, quotes));
    assert(!text::in_class(p.last(), false, slash));
    assert(text::trim_class(p, true, quotes) == p);
    assert(without_dots(p) == p);
    assert(text::trim_end_class(p, false, slash) == p);
    let d = seq!['.', '/'] + p;
    assert(!text::is_white('.') && !quotes.contains('.'));
    assert(d.last() == p.last());
    assert(text::trim_class(d, true, quotes) == d);
    assert(d.skip(2) == p);
    assert(without_dots(d) == without_dots(p));
    let e = p + seq!['/'];
    assert(!text::is_white('/') && !quotes.contains('/'));
    assert(e.last() == '/' && e[0] == p[0]);
    assert(text::trim_class(e, true, quotes) == e);
    assert(without_dots(e) == e);
    assert(text::in_class(e.last(), false, slash));
    assert(e.drop_last() == p);
    assert(text::trim_end_class(e, false, slash) == p);
    let q = seq!['"'] + p + seq!['"'];
    assert(quotes.contains('"'));
    assert(text::in_class(q[0], true, quotes));
    let r = q.skip(1);
    assert(r[0] == p[0]);
    assert(text::trim_start_class(r, true, quotes) == r);
    assert(text::trim_start_class(q, true, quotes) == r);
    assert(text::in_class(r.last(), true, quotes));
    assert(r.drop_last() == p);
    assert(text::trim_end_class(p, true, quotes) == p);
    assert(text::trim_end_class(r, true, quotes) == p);
}

/// A name is repeated where an earlier worker has it; the first that is, is the one that is told.
pub proof fn law_repeated_names_are_found(names: Seq<Seq<char>>, j: int, k: int)
    ensures
        first_repeat(names, j) && first_repeat(names, k) ==> j == k,
        names.no_duplicates() ==> !first_repeat(names, j),
        0 <= k < j < names.len() && names[k] == names[j] ==> repeats(names, j),
{
}

} // verus!

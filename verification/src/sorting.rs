//! The order of texts, character by character, and lists of texts in that order.
use vstd::prelude::*;

use crate::text;
use crate::text::chars_of;

verus! {

/// Whether one text comes before another or is the same: the first character in which they
/// differ decides, and a text comes before those that go on from it.
pub open spec fn text_le(a: Seq<char>, b: Seq<char>) -> bool
    decreases a.len(),
{
    if a.len() == 0 {
        true
    } else if b.len() == 0 {
        false
    } else if a[0] != b[0] {
        (a[0] as int) < (b[0] as int)
    } else {
        text_le(a.skip(1), b.skip(1))
    }
}

/// Whether texts are in order.
pub open spec fn in_order(list: Seq<Seq<char>>) -> bool {
    forall|i: int, j: int|
        #![trigger list[i], list[j]]
        0 <= i < j < list.len() ==> text_le(list[i], list[j])
}

/// Of two texts one comes before the other or is the same.
pub proof fn lemma_total(a: Seq<char>, b: Seq<char>)
    ensures
        text_le(a, b) || text_le(b, a),
    decreases a.len(),
{
    if a.len() > 0 && b.len() > 0 && a[0] == b[0] {
        lemma_total(a.skip(1), b.skip(1));
    }
}

/// A text that comes before one that comes before a third comes before the third.
pub proof fn lemma_transitive(a: Seq<char>, b: Seq<char>, c: Seq<char>)
    requires
        text_le(a, b),
        text_le(b, c),
    ensures
        text_le(a, c),
    decreases a.len(),
{
    if a.len() > 0 && b.len() > 0 && c.len() > 0 && a[0] == b[0] && b[0] == c[0] {
        lemma_transitive(a.skip(1), b.skip(1), c.skip(1));
    }
}

proof fn lemma_same_start(a: Seq<char>, b: Seq<char>, i: int)
    requires
        0 <= i <= a.len(),
        i <= b.len(),
        forall|j: int| 0 <= j < i ==> a[j] == b[j],
    ensures
        text_le(a, b) == text_le(a.skip(i), b.skip(i)),
    decreases i,
{
    if i > 0 {
        assert forall|j: int| 0 <= j < i - 1 implies a.skip(1)[j] == b.skip(1)[j] by {
            assert(a[j + 1] == b[j + 1]);
        }
        lemma_same_start(a.skip(1), b.skip(1), i - 1);
        assert(a.skip(1).skip(i - 1) == a.skip(i));
        assert(b.skip(1).skip(i - 1) == b.skip(i));
    } else {
        assert(a.skip(0) == a);
        assert(b.skip(0) == b);
    }
}

/// Whether one text comes before another or is the same.
pub fn comes_first(a: &str, b: &str) -> (r: bool)
    ensures
        r == text_le(a@, b@),
{
    let x = chars_of(a);
    let y = chars_of(b);
    let mut i: usize = 0;
    while i < x.len()
        invariant
            i <= x@.len(),
            i <= y@.len(),
            x@ == a@,
            y@ == b@,
            forall|j: int| 0 <= j < i ==> x@[j] == y@[j],
        decreases x@.len() - i,
    {
        proof {
            lemma_same_start(a@, b@, i as int);
            assert(a@.skip(i as int)[0] == x@[i as int]);
        }
        if i >= y.len() {
            return false;
        }
        assert(b@.skip(i as int)[0] == y@[i as int]);
        let c: char = x[i];
        let d: char = y[i];
        if c != d {
            return c < d;
        }
        i += 1;
    }
    proof {
        lemma_same_start(a@, b@, i as int);
    }
    true
}

/// Puts a text into a list in order.
pub fn insert_in_order(list: &mut Vec<String>, t: String)
    requires
        in_order(text::texts(old(list)@)),
    ensures
        in_order(text::texts(final(list)@)),
        text::texts(final(list)@).to_multiset() == text::texts(old(list)@).to_multiset().insert(t@),
{
    let ghost before = text::texts(list@);
    let mut p: usize = list.len();
    while p > 0 && !comes_first(list[p - 1].as_str(), t.as_str())
        invariant
            p <= list@.len(),
            before == text::texts(list@),
            forall|k: int| p <= k < before.len() ==> !text_le(#[trigger] before[k], t@),
        decreases p,
    {
        p -= 1;
    }
    list.insert(p, t);
    proof {
        let after = text::texts(list@);
        assert(after == before.insert(p as int, t@));
        assert(after.remove(p as int) == before);
        vstd::seq_lib::to_multiset_remove(after, p as int);
        assert(after[p as int] == t@);
        assert(after.to_multiset().count(t@) > 0) by {
            after.to_multiset_ensures();
            assert(after.contains(t@));
        }
        assert(after.to_multiset() =~= before.to_multiset().insert(t@));
        assert forall|i: int, j: int|
            #![trigger after[i], after[j]]
            0 <= i < j < after.len() implies text_le(after[i], after[j]) by {
            if j == p {
                assert(text_le(before[p - 1], t@));
                if i < p - 1 {
                    assert(text_le(before[i], before[p - 1]));
                    lemma_transitive(before[i], before[p - 1], t@);
                }
            } else if i == p {
                assert(!text_le(before[j - 1], t@));
                lemma_total(before[j - 1], t@);
            } else if i < p && j > p {
                assert(text_le(before[i], before[j - 1]));
            } else if i > p {
                assert(text_le(before[i - 1], before[j - 1]));
            } else {
                assert(text_le(before[i], before[j]));
            }
        }
    }
}

/// The texts in order.
pub fn sort_texts(list: &Vec<String>) -> (r: Vec<String>)
    ensures
        in_order(text::texts(r@)),
        text::texts(r@).to_multiset() == text::texts(list@).to_multiset(),
{
    let ghost all = text::texts(list@);
    let mut out: Vec<String> = Vec::new();
    let mut i: usize = 0;
    proof {
        assert(text::texts(out@) == Seq::<Seq<char>>::empty());
        assert(all.take(0) == Seq::<Seq<char>>::empty());
    }
    while i < list.len()
        invariant
            i <= list@.len(),
            all == text::texts(list@),
            in_order(text::texts(out@)),
            text::texts(out@).to_multiset() == all.take(i as int).to_multiset(),
        decreases list@.len() - i,
    {
        proof {
            assert(all.take(i + 1) == all.take(i as int).push(list@[i as int]@));
            vstd::seq_lib::to_multiset_build(all.take(i as int), list@[i as int]@);
        }
        insert_in_order(&mut out, list[i].clone());
        i += 1;
    }
    assert(all.take(i as int) == all);
    out
}

/// Texts are ordered by their first character that differs, and a text comes before those that
/// begin with it; of two texts one comes first, and both only where they are the same.
pub proof fn law_texts_have_one_order(a: Seq<char>, b: Seq<char>)
    ensures
        text_le(a, b) || text_le(b, a),
        text_le(a, b) && text_le(b, a) ==> a == b,
        text_le(a, a + b),
        a.len() > 0 && b.len() > 0 && (a[0] as int) < (b[0] as int) ==> text_le(a, b) && !text_le(
            b,
            a,
        ),
        b.len() > 0 ==> !text_le(a + b, a),
    decreases a.len(),
{
    if a.len() > 0 && b.len() > 0 {
        law_texts_have_one_order(a.skip(1), b.skip(1));
        if a[0] == b[0] && a.skip(1) == b.skip(1) {
            assert(a == seq![a[0]] + a.skip(1));
            assert(b == seq![b[0]] + b.skip(1));
        }
    }
    if a.len() > 0 {
        law_texts_have_one_order(a.skip(1), b);
        assert((a + b).skip(1) == a.skip(1) + b);
    } else {
        assert(a + b == b);
        if b.len() == 0 {
            assert(a == b);
        }
    }
}

} // verus!

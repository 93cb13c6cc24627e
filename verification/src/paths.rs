//! Unix paths as texts.
use vstd::prelude::*;

use crate::text;
use crate::text::{chars_of, same_text, text_range};
use crate::text_search::starts_with;

verus! {

/// Whether a path starts at the root.
pub open spec fn absolute(path: Seq<char>) -> bool {
    text::begins(path, "/"@)
}

/// `path` taken from `base`: `path` itself where it is absolute, else below `base`.
pub open spec fn below(base: Seq<char>, path: Seq<char>) -> Seq<char> {
    if absolute(path) {
        path
    } else if base.len() == 0 || base.last() == '/' {
        base + path
    } else {
        base + "/"@ + path
    }
}

/// Whether a path starts at the root.
pub fn is_absolute(path: &str) -> (r: bool)
    ensures
        r == absolute(path@),
{
    starts_with(path, "/")
}

/// `path` taken from `base`.
pub fn join_path(base: &str, path: &str) -> (r: String)
    ensures
        r@ == below(base@, path@),
{
    if is_absolute(path) {
        return path.to_owned();
    }
    let chars = chars_of(base);
    let n: usize = chars.len();
    let mut out = base.to_owned();
    if n > 0 && chars[n - 1] != '/' {
        out.append("/");
    }
    out.append(path);
    out
}

/// The position of the last `/`.
pub open spec fn last_slash(path: Seq<char>) -> Option<int>
    decreases path.len(),
{
    if path.len() == 0 {
        None
    } else if path.last() == '/' {
        Some(path.len() - 1)
    } else {
        last_slash(path.drop_last())
    }
}

/// A slash stands where it was found.
pub proof fn lemma_last_slash(path: Seq<char>)
    ensures
        last_slash(path) matches Some(i) ==> 0 <= i < path.len(),
    decreases path.len(),
{
    if path.len() > 0 {
        lemma_last_slash(path.drop_last());
    }
}

/// The name of a file or directory: the last part of its path, without counting parts that are
/// empty or `.`. A path that ends in `..` has none.
pub open spec fn last_part(path: Seq<char>) -> Option<Seq<char>>
    decreases path.len(),
{
    match last_slash(path) {
        None => if path.len() == 0 || path == "."@ || path == ".."@ {
            None
        } else {
            Some(path)
        },
        Some(i) => {
            let part = path.skip(i + 1);
            if part.len() == 0 || part == "."@ {
                if 0 <= i < path.len() {
                    last_part(path.take(i))
                } else {
                    None
                }
            } else if part == ".."@ {
                None
            } else {
                Some(part)
            }
        },
    }
}

/// The name of a file or directory.
pub fn file_name(path: &str) -> (r: Option<String>)
    ensures
        text::opt_text(r) == last_part(path@),
{
    let chars = chars_of(path);
    let mut end: usize = chars.len();
    assert(path@.take(end as int) == path@);
    loop
        invariant
            chars@ == path@,
            end <= chars@.len(),
            last_part(path@) == last_part(path@.take(end as int)),
        decreases end,
    {
        let ghost whole = path@.take(end as int);
        let mut start: usize = end;
        assert(whole.take(start as int) == whole);
        while start > 0 && chars[start - 1] != '/'
            invariant
                start <= end,
                end <= chars@.len(),
                chars@ == path@,
                whole == path@.take(end as int),
                last_slash(whole) == last_slash(whole.take(start as int)),
            decreases start,
        {
            proof {
                let part = whole.take(start as int);
                assert(part.last() == chars@[start - 1]);
                assert(part.drop_last() == whole.take(start - 1));
            }
            start -= 1;
        }
        let part = text_range(&chars, start, end);
        proof {
            if start > 0 {
                assert(whole.take(start as int).last() == '/');
                assert(last_slash(whole) == Some(start - 1));
                assert(whole.skip(start as int) == part@);
                assert(whole.take(start - 1) == path@.take(start - 1));
            } else {
                assert(whole.take(0).len() == 0);
                assert(last_slash(whole) is None);
                assert(whole == part@);
            }
        }
        if part.as_str().is_empty() || same_text(part.as_str(), ".") {
            if start == 0 {
                return None;
            }
            end = start - 1;
        } else if same_text(part.as_str(), "..") {
            return None;
        } else {
            return Some(part);
        }
    }
}

/// A path without what it ends in that names nothing: slashes, and parts that are `.` behind
/// another part.
pub open spec fn tidy_end(path: Seq<char>) -> Seq<char>
    decreases path.len(),
{
    if path.len() > 1 && path.last() == '/' {
        tidy_end(path.drop_last())
    } else if path.len() > 1 && path.last() == '.' && path[path.len() - 2] == '/' {
        tidy_end(path.drop_last())
    } else {
        path
    }
}

/// The path without its last part: none for the root and for the empty path.
pub open spec fn parent_of(path: Seq<char>) -> Option<Seq<char>> {
    let tidy = tidy_end(path);
    if tidy.len() == 0 || tidy == "/"@ {
        None
    } else {
        match last_slash(tidy) {
            None => Some(Seq::empty()),
            Some(i) => Some(tidy_end(tidy.take(i + 1))),
        }
    }
}

/// How much of a path is left without what it ends in that names nothing.
fn tidy_len(chars: &Vec<char>, end: usize) -> (r: usize)
    requires
        end <= chars@.len(),
    ensures
        r <= end,
        chars@.take(r as int) == tidy_end(chars@.take(end as int)),
{
    let mut n: usize = end;
    while n > 1 && (chars[n - 1] == '/' || chars[n - 1] == '.' && chars[n - 2] == '/')
        invariant
            n <= end,
            end <= chars@.len(),
            tidy_end(chars@.take(n as int)) == tidy_end(chars@.take(end as int)),
        decreases n,
    {
        assert(chars@.take(n as int).drop_last() == chars@.take(n - 1));
        n -= 1;
    }
    n
}

/// The path without its last part: none for the root and for the empty path.
pub fn parent(path: &str) -> (r: Option<String>)
    ensures
        text::opt_text(r) == parent_of(path@),
{
    let chars = chars_of(path);
    let end = tidy_len(&chars, chars.len());
    let ghost tidy = tidy_end(path@);
    proof {
        assert(chars@.take(chars@.len() as int) == path@);
        assert(chars@.take(end as int) == tidy);
        reveal_strlit("/");
        if tidy.len() == 1 && tidy[0] == '/' {
            assert(tidy == "/"@);
        }
    }
    if end == 0 || (end == 1 && chars[0] == '/') {
        return None;
    }
    let mut start: usize = end;
    assert(tidy.take(start as int) == tidy);
    while start > 0 && chars[start - 1] != '/'
        invariant
            start <= end,
            end <= chars@.len(),
            tidy == chars@.take(end as int),
            last_slash(tidy) == last_slash(tidy.take(start as int)),
        decreases start,
    {
        proof {
            let part = tidy.take(start as int);
            assert(part.last() == chars@[start - 1]);
            assert(part.drop_last() == tidy.take(start - 1));
        }
        start -= 1;
    }
    proof {
        if start > 0 {
            assert(tidy.take(start as int).last() == '/');
            assert(last_slash(tidy) == Some(start - 1));
            assert(tidy.take(start as int) == chars@.take(start as int));
        } else {
            assert(tidy.take(0).len() == 0);
            assert(last_slash(tidy) is None);
        }
    }
    if start == 0 {
        return Some(String::new());
    }
    let kept = tidy_len(&chars, start);
    let r = text_range(&chars, 0, kept);
    assert(chars@.subrange(0, kept as int) == chars@.take(kept as int));
    Some(r)
}

/// A path is taken from a directory unless it is absolute: then it stays; else it begins with the
/// directory, ends with the path, and has a slash between them.
pub proof fn law_paths_are_taken_from_their_base(base: Seq<char>, path: Seq<char>)
    ensures
        path.len() > 0 && path[0] == '/' ==> below(base, path) == path,
        path.len() == 0 || path[0] != '/' ==> text::begins(below(base, path), base) && text::ends(
            below(base, path),
            path,
        ),
        (path.len() == 0 || path[0] != '/') && base.len() > 0 ==> below(base, path)[below(
            base,
            path,
        ).len() - path.len() - 1] == '/',
        (path.len() == 0 || path[0] != '/') && base.len() == 0 ==> below(base, path) == path,
        (path.len() == 0 || path[0] != '/') && base.len() > 0 && base.last() != '/' ==> below(
            base,
            path,
        ).len() == base.len() + 1 + path.len(),
{
    reveal_strlit("/");
    assert("/"@.len() == 1 && "/"@[0] == '/');
    if path.len() > 0 {
        assert(path.subrange(0, 1)[0] == path[0]);
        if path[0] == '/' {
            assert(path.subrange(0, 1) == "/"@);
        }
    }
    if path.len() == 0 || path[0] != '/' {
        let r = below(base, path);
        assert(r.subrange(0, base.len() as int) == base);
        assert(text::occurs_at(r, base, 0));
        let n = r.len() - path.len();
        assert(r.subrange(n as int, r.len() as int) == path);
        assert(text::occurs_at(r, path, n as int));
    }
}

proof fn lemma_where_last_slash_is(path: Seq<char>)
    ensures
        last_slash(path) matches Some(k) ==> 0 <= k < path.len() && path[k] == '/' && forall|i: int|
            k < i < path.len() ==> #[trigger] path[i] != '/',
        last_slash(path) is None ==> forall|i: int| 0 <= i < path.len() ==> #[trigger] path[i] != '/',
    decreases path.len(),
{
    if path.len() > 0 && path.last() != '/' {
        let rest = path.drop_last();
        lemma_where_last_slash_is(rest);
        if last_slash(rest) is Some {
            let k = last_slash(rest)->0;
            assert(rest[k] == path[k]);
            assert forall|i: int| k < i < path.len() implies #[trigger] path[i] != '/' by {
                if i < rest.len() {
                    assert(rest[i] == path[i]);
                }
            }
        } else {
            assert forall|i: int| 0 <= i < path.len() implies #[trigger] path[i] != '/' by {
                if i < rest.len() {
                    assert(rest[i] == path[i]);
                }
            }
        }
    }
}

/// The last part of a path is a name in it, and the parent of a path is what it is in: of a name
/// below a directory, the name is the last part and the directory the parent.
pub proof fn law_names_are_in_their_directories(dir: Seq<char>, name: Seq<char>)
    requires
        name.len() > 0,
        forall|i: int| 0 <= i < name.len() ==> #[trigger] name[i] != '/',
        name[0] != '.',
        dir.len() > 0,
        dir.last() != '/',
        dir.last() != '.',
    ensures
        last_part(dir + "/"@ + name) == Some(name),
        parent_of(dir + "/"@ + name) == Some(dir),
        last_part(name) == Some(name),
        parent_of(name) == Some(Seq::<char>::empty()),
{
    reveal_strlit("/");
    reveal_strlit(".");
    reveal_strlit("..");
    assert("/"@.len() == 1 && "/"@[0] == '/');
    assert("."@.len() == 1 && "."@[0] == '.');
    assert(".."@.len() == 2 && ".."@[0] == '.');
    let p = dir + "/"@ + name;
    let at = dir.len() as int;
    lemma_where_last_slash_is(p);
    assert(p[at] == '/');
    assert forall|i: int| at < i < p.len() implies #[trigger] p[i] != '/' by {
        assert(p[i] == name[i - at - 1]);
    }
    assert(last_slash(p) == Some(at));
    assert(p.skip(at + 1) == name);
    lemma_where_last_slash_is(name);
    assert(last_slash(name) is None) by {
        if last_slash(name) is Some {
            let k = last_slash(name)->0;
            assert(name[k] != '/');
        }
    }
    assert(name.last() == name[name.len() - 1]);
    assert(p.last() == name.last());
    assert(tidy_end(p) == p) by {
        if p.last() == '.' && p[p.len() - 2] == '/' {
            if name.len() > 1 {
                assert(p[p.len() - 2] == name[name.len() - 2]);
            }
        }
    }
    assert(tidy_end(name) == name) by {
        if name.len() > 1 {
            assert(name[name.len() - 2] != '/');
        }
    }
    assert(p != "/"@);
    let up = p.take(at + 1);
    assert(up.last() == '/');
    assert(up.drop_last() == dir);
    assert(tidy_end(up) == tidy_end(dir));
    assert(tidy_end(dir) == dir);
    assert(name != "/"@);
}

} // verus!

//! Paths as texts: their components, and how one path is joined to, or taken
//! relative to, another.
use vstd::prelude::*;

use crate::text::{
    cat, cat3, chars_of, join, joined, opt, owned, pieces, replace, replaced, split, str_eq,
    string_of, texts,
};

verus! {

/// Whether a path is absolute.
pub open spec fn is_abs(s: Seq<char>) -> bool {
    s.len() > 0 && s[0] == '/'
}

/// Whether a path is absolute.
pub fn is_absolute(s: &str) -> (r: bool)
    ensures
        r == is_abs(s@),
{
    !s.is_empty() && s.get_char(0) == '/'
}

/// A path below another, or the path itself where it is absolute.
pub open spec fn path_join(base: Seq<char>, path: Seq<char>) -> Seq<char> {
    if is_abs(path) {
        path
    } else if base.len() == 0 || base.last() == '/' {
        base + path
    } else {
        base + "/"@ + path
    }
}

/// A path below another, or the path itself where it is absolute.
pub fn join_path(base: &str, path: &str) -> (r: String)
    ensures
        r@ == path_join(base@, path@),
{
    if is_absolute(path) {
        return owned(path);
    }
    let v = chars_of(base);
    if v.len() == 0 || v[v.len() - 1] == '/' {
        cat(base, path)
    } else {
        cat3(base, "/", path)
    }
}

/// Whether a piece of a path between slashes counts as a component: it is not
/// empty, and not the directory itself.
pub open spec fn counts(piece: Seq<char>) -> bool {
    piece.len() > 0 && piece != "."@
}

/// The pieces that count.
pub open spec fn counted(all: Seq<Seq<char>>) -> Seq<Seq<char>>
    decreases all.len(),
{
    if all.len() == 0 {
        seq![]
    } else {
        let rest = counted(all.drop_last());
        if counts(all.last()) {
            rest.push(all.last())
        } else {
            rest
        }
    }
}

/// The component that a path begins with, where it begins with the root or with
/// the directory itself.
pub open spec fn head(s: Seq<char>) -> Seq<Seq<char>> {
    if is_abs(s) {
        seq!["/"@]
    } else if pieces(s, '/')[0] == "."@ {
        seq!["."@]
    } else {
        seq![]
    }
}

/// The components of a path.
pub open spec fn components(s: Seq<char>) -> Seq<Seq<char>> {
    head(s) + counted(pieces(s, '/'))
}

/// Whether the components of a path begin with those of another.
pub open spec fn lies_under(path: Seq<char>, base: Seq<char>) -> bool {
    components(base).is_prefix_of(components(path))
}

/// The pieces that count.
fn counted_pieces(all: &Vec<String>) -> (r: Vec<String>)
    ensures
        texts(r@) == counted(texts(all@)),
{
    let mut out: Vec<String> = Vec::new();
    let ghost given = texts(all@);
    proof {
        assert(texts(out@) =~= counted(given.take(0)));
    }
    for i in 0..all.len()
        invariant
            given == texts(all@),
            texts(out@) == counted(given.take(i as int)),
    {
        let ghost before = texts(out@);
        proof {
            assert(given.take(i + 1).drop_last() =~= given.take(i as int));
            assert(given.take(i + 1).last() == all@[i as int]@);
        }
        if !all[i].as_str().is_empty() && !str_eq(all[i].as_str(), ".") {
            out.push(all[i].clone());
            proof {
                assert(texts(out@) =~= before.push(all@[i as int]@));
            }
        }
    }
    proof {
        assert(given.take(given.len() as int) =~= given);
    }
    out
}

/// The components of a path.
pub fn path_components(s: &str) -> (r: Vec<String>)
    ensures
        texts(r@) == components(s@),
{
    let raw = split(s, '/');
    let mut rest = counted_pieces(&raw);
    let mut out: Vec<String> = Vec::new();
    if is_absolute(s) {
        out.push(owned("/"));
    } else if str_eq(raw[0].as_str(), ".") {
        out.push(owned("."));
    }
    proof {
        assert(texts(raw@)[0] == raw@[0]@);
        assert(texts(out@) =~= head(s@));
    }
    let ghost first = out@;
    let ghost more = rest@;
    out.append(&mut rest);
    proof {
        assert(texts(out@) =~= texts(first) + texts(more));
    }
    out
}

/// Whether one list of texts begins with another.
fn begins_with(all: &Vec<String>, first: &Vec<String>) -> (r: bool)
    ensures
        r == texts(first@).is_prefix_of(texts(all@)),
{
    if first.len() > all.len() {
        return false;
    }
    let mut i: usize = 0;
    while i < first.len()
        invariant
            i <= first@.len() <= all@.len(),
            forall|j: int| 0 <= j < i ==> texts(first@)[j] == texts(all@)[j],
        decreases first@.len() - i,
    {
        if !str_eq(first[i].as_str(), all[i].as_str()) {
            proof {
                assert(texts(first@)[i as int] != texts(all@)[i as int]);
                assert(texts(all@).subrange(0, first@.len() as int)[i as int] == texts(
                    all@,
                )[i as int]);
            }
            return false;
        }
        i = i + 1;
    }
    proof {
        assert(texts(first@) =~= texts(all@).subrange(0, first@.len() as int));
    }
    true
}

/// Whether the components of a path begin with those of another.
pub fn path_starts_with(path: &str, base: &str) -> (r: bool)
    ensures
        r == lies_under(path@, base@),
{
    begins_with(&path_components(path), &path_components(base))
}

/// The pieces after the first so many that count.
pub open spec fn after_counted(all: Seq<Seq<char>>, n: int) -> Seq<Seq<char>>
    decreases all.len(),
{
    if n <= 0 || all.len() == 0 {
        all
    } else if counts(all[0]) {
        after_counted(all.drop_first(), n - 1)
    } else {
        after_counted(all.drop_first(), n)
    }
}

/// The pieces from the first that counts on.
pub open spec fn from_counted(all: Seq<Seq<char>>) -> Seq<Seq<char>>
    decreases all.len(),
{
    if all.len() > 0 && !counts(all[0]) {
        from_counted(all.drop_first())
    } else {
        all
    }
}

/// The pieces up to the last that counts.
pub open spec fn to_counted(all: Seq<Seq<char>>) -> Seq<Seq<char>>
    decreases all.len(),
{
    if all.len() > 0 && !counts(all.last()) {
        to_counted(all.drop_last())
    } else {
        all
    }
}

/// What is left of a path without its first components. Slashes and references
/// to the directory itself are kept inside what is left, not at its ends.
pub open spec fn without_first(s: Seq<char>, n: int) -> Seq<char> {
    let all = pieces(s, '/');
    let h = head(s);
    if n <= 0 {
        let kept = to_counted(all.skip(h.len() as int));
        if h.len() == 0 {
            joined(kept, "/"@)
        } else if is_abs(s) {
            "/"@ + joined(kept, "/"@)
        } else if kept.len() == 0 {
            "."@
        } else {
            "./"@ + joined(kept, "/"@)
        }
    } else {
        joined(
            to_counted(
                from_counted(after_counted(all.skip(h.len() as int), n - h.len())),
            ),
            "/"@,
        )
    }
}

/// A path relative to another, where it lies under it.
pub open spec fn relative(path: Seq<char>, base: Seq<char>) -> Option<Seq<char>> {
    if lies_under(path, base) {
        Some(without_first(path, components(base).len() as int))
    } else {
        None
    }
}

/// Copies a part of a list of texts.
fn part(all: &Vec<String>, from: usize, to: usize) -> (r: Vec<String>)
    requires
        from <= to <= all@.len(),
    ensures
        texts(r@) == texts(all@).subrange(from as int, to as int),
{
    let mut out: Vec<String> = Vec::new();
    let mut i: usize = from;
    while i < to
        invariant
            from <= i <= to <= all@.len(),
            texts(out@) == texts(all@).subrange(from as int, i as int),
        decreases to - i,
    {
        let ghost before = texts(out@);
        out.push(all[i].clone());
        proof {
            assert(texts(out@) =~= before.push(all@[i as int]@));
            assert(texts(all@).subrange(from as int, i + 1) =~= before.push(all@[i as int]@));
        }
        i = i + 1;
    }
    proof {
        assert(texts(out@) =~= texts(all@).subrange(from as int, to as int));
    }
    out
}

/// Whether a piece counts.
fn piece_counts(piece: &str) -> (r: bool)
    ensures
        r == counts(piece@),
{
    !piece.is_empty() && !str_eq(piece, ".")
}

/// Where the pieces after the first so many that count begin.
fn skip_counted(all: &Vec<String>, from: usize, n: usize) -> (r: usize)
    requires
        from <= all@.len(),
    ensures
        from <= r <= all@.len(),
        texts(all@).skip(r as int) == after_counted(texts(all@).skip(from as int), n as int),
{
    let ghost given = texts(all@);
    let mut i: usize = from;
    let mut left: usize = n;
    while i < all.len() && left > 0
        invariant
            from <= i <= all@.len(),
            given == texts(all@),
            after_counted(given.skip(from as int), n as int) == after_counted(
                given.skip(i as int),
                left as int,
            ),
        decreases all@.len() - i,
    {
        proof {
            assert(given.skip(i as int)[0] == all@[i as int]@);
            assert(given.skip(i as int).drop_first() =~= given.skip(i + 1));
        }
        if piece_counts(all[i].as_str()) {
            left = left - 1;
        }
        i = i + 1;
    }
    i
}

/// Where the pieces from the first that counts on begin.
fn skip_uncounted(all: &Vec<String>, from: usize) -> (r: usize)
    requires
        from <= all@.len(),
    ensures
        from <= r <= all@.len(),
        texts(all@).skip(r as int) == from_counted(texts(all@).skip(from as int)),
{
    let ghost given = texts(all@);
    let mut i: usize = from;
    while i < all.len() && !piece_counts(all[i].as_str())
        invariant
            from <= i <= all@.len(),
            given == texts(all@),
            from_counted(given.skip(from as int)) == from_counted(given.skip(i as int)),
        decreases all@.len() - i,
    {
        proof {
            assert(given.skip(i as int)[0] == all@[i as int]@);
            assert(given.skip(i as int).drop_first() =~= given.skip(i + 1));
        }
        i = i + 1;
    }
    proof {
        if i < all@.len() {
            assert(given.skip(i as int)[0] == all@[i as int]@);
        }
    }
    i
}

/// The pieces, from one on, up to the last that counts.
fn drop_uncounted(all: &Vec<String>, from: usize) -> (r: Vec<String>)
    requires
        from <= all@.len(),
    ensures
        texts(r@) == to_counted(texts(all@).skip(from as int)),
{
    let ghost given = texts(all@);
    let mut to: usize = all.len();
    proof {
        assert(given.subrange(from as int, to as int) =~= given.skip(from as int));
    }
    while to > from && !piece_counts(all[to - 1].as_str())
        invariant
            from <= to <= all@.len(),
            given == texts(all@),
            to_counted(given.skip(from as int)) == to_counted(
                given.subrange(from as int, to as int),
            ),
        decreases to,
    {
        proof {
            let now = given.subrange(from as int, to as int);
            assert(now.last() == all@[to - 1]@);
            assert(now.drop_last() =~= given.subrange(from as int, to - 1));
        }
        to = to - 1;
    }
    proof {
        let now = given.subrange(from as int, to as int);
        if to > from {
            assert(now.last() == all@[to - 1]@);
        }
    }
    part(all, from, to)
}

/// What is left of a path without its first components.
fn drop_components(s: &str, n: usize) -> (r: String)
    ensures
        r@ == without_first(s@, n as int),
{
    let all = split(s, '/');
    let absolute = is_absolute(s);
    let dotted = !absolute && str_eq(all[0].as_str(), ".");
    let h: usize = if absolute || dotted {
        1
    } else {
        0
    };
    proof {
        assert(texts(all@)[0] == all@[0]@);
        assert(h == head(s@).len());
    }
    if n == 0 {
        let kept = drop_uncounted(&all, h);
        let text = join(&kept, "/");
        if absolute {
            cat("/", text.as_str())
        } else if dotted {
            if kept.len() == 0 {
                owned(".")
            } else {
                cat("./", text.as_str())
            }
        } else {
            text
        }
    } else {
        let from = skip_counted(&all, h, n - h);
        let first = skip_uncounted(&all, from);
        let kept = drop_uncounted(&all, first);
        join(&kept, "/")
    }
}

/// A path relative to another, where it lies under it.
pub fn strip_base(path: &str, base: &str) -> (r: Option<String>)
    ensures
        opt(r) == relative(path@, base@),
{
    let first = path_components(base);
    if begins_with(&path_components(path), &first) {
        Some(drop_components(path, first.len()))
    } else {
        None
    }
}

/// A path as it is shown: relative to a base where it lies under it, and with
/// forward slashes.
pub open spec fn shown(path: Seq<char>, base: Seq<char>) -> Seq<char> {
    replaced(
        match relative(path, base) {
            Some(s) => s,
            None => path,
        },
        "\\"@,
        "/"@,
    )
}

/// A path as it is shown.
pub fn show_path(path: &str, base: &str) -> (r: String)
    ensures
        r@ == shown(path@, base@),
{
    let text = match strip_base(path, base) {
        Some(s) => s,
        None => owned(path),
    };
    proof {
        reveal_strlit("\\");
    }
    replace(text.as_str(), "\\", "/")
}

/// The shortest beginning of a path, of that length or longer but not the whole path,
/// that has those components.
pub open spec fn beginning_with(s: Seq<char>, want: Seq<Seq<char>>, n: int) -> Option<Seq<char>>
    decreases s.len() - n,
{
    if n < 0 || n >= s.len() {
        None
    } else if components(s.take(n)) == want {
        Some(s.take(n))
    } else {
        beginning_with(s, want, n + 1)
    }
}

/// The directory that a path lies in: the path without its last component. The
/// root, and the empty path, lie in none.
pub open spec fn parent_of(s: Seq<char>) -> Option<Seq<char>> {
    let all = components(s);
    if all.len() == 0 || all.last() == "/"@ {
        None
    } else {
        beginning_with(s, all.drop_last(), 0)
    }
}

/// The directory that a path lies in.
pub fn parent_path(s: &str) -> (r: Option<String>)
    ensures
        opt(r) == parent_of(s@),
{
    let mut want = path_components(s);
    let ghost all = components(s@);
    if want.len() == 0 {
        return None;
    }
    proof {
        assert(all.last() == want@[want@.len() - 1]@);
    }
    if str_eq(want[want.len() - 1].as_str(), "/") {
        return None;
    }
    want.pop();
    proof {
        assert(texts(want@) =~= all.drop_last());
    }
    let v = chars_of(s);
    let mut n: usize = 0;
    while n < v.len()
        invariant
            v@ == s@,
            n <= v@.len(),
            all == components(s@),
            all.len() > 0 && all.last() != "/"@,
            texts(want@) == all.drop_last(),
            beginning_with(s@, all.drop_last(), 0) == beginning_with(
                s@,
                all.drop_last(),
                n as int,
            ),
        decreases v@.len() - n,
    {
        let start = string_of(&v, 0, n);
        proof {
            assert(start@ =~= s@.take(n as int));
        }
        let found = path_components(start.as_str());
        if found.len() == want.len() && begins_with(&found, &want) {
            proof {
                assert(texts(found@) =~= texts(want@)) by {
                    assert(texts(found@).subrange(0, want@.len() as int) =~= texts(found@));
                }
            }
            return Some(start);
        }
        proof {
            if components(s@.take(n as int)) == all.drop_last() {
                assert(texts(found@).len() == texts(want@).len());
                assert(texts(want@).is_prefix_of(texts(found@))) by {
                    assert(texts(found@).subrange(0, want@.len() as int) =~= texts(found@));
                }
            }
        }
        n = n + 1;
    }
    None
}

/// The name at the end of a path, where it ends with one.
pub open spec fn last_name(s: Seq<char>) -> Option<Seq<char>> {
    let all = components(s);
    if all.len() == 0 || all.last() == "/"@ || all.last() == "."@ || all.last() == ".."@ {
        None
    } else {
        Some(all.last())
    }
}

/// The name at the end of a path, where it ends with one.
pub fn file_name(s: &str) -> (r: Option<String>)
    ensures
        opt(r) == last_name(s@),
{
    let all = path_components(s);
    let ghost given = components(s@);
    if all.len() == 0 {
        return None;
    }
    let last = &all[all.len() - 1];
    proof {
        assert(given.last() == last@);
    }
    if str_eq(last.as_str(), "/") || str_eq(last.as_str(), ".") || str_eq(last.as_str(), "..") {
        None
    } else {
        Some(last.clone())
    }
}

} // verus!

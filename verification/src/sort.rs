//! Sorting by a text key.
use vstd::prelude::*;

use crate::text::{before, str_before};

verus! {

/// A value with the key that it is sorted by.
pub struct Keyed<T> {
    pub key: String,
    pub value: T,
}

/// Values with their keys.
pub open spec fn keyed<T>(v: Seq<Keyed<T>>) -> Seq<(Seq<char>, T)> {
    Seq::new(v.len(), |i: int| (v[i].key@, v[i].value))
}

/// A sorted sequence with one more item: behind all that do not come after it.
pub open spec fn inserted<T>(s: Seq<(Seq<char>, T)>, x: (Seq<char>, T)) -> Seq<(Seq<char>, T)>
    decreases s.len(),
{
    if s.len() > 0 && before(x.0, s.last().0) {
        inserted(s.drop_last(), x).push(s.last())
    } else {
        s.push(x)
    }
}

/// The items sorted by key, those of the same key in the order in which they
/// came.
pub open spec fn sorted<T>(s: Seq<(Seq<char>, T)>) -> Seq<(Seq<char>, T)>
    decreases s.len(),
{
    if s.len() == 0 {
        seq![]
    } else {
        inserted(sorted(s.drop_last()), s.last())
    }
}

/// Whether no item comes before an earlier one.
pub open spec fn ordered<T>(s: Seq<(Seq<char>, T)>) -> bool {
    forall|i: int, j: int| 0 <= i < j < s.len() ==> !before((#[trigger] s[j]).0, (#[trigger] s[i]).0)
}

/// The items of that key, in order.
pub open spec fn of_key<T>(s: Seq<(Seq<char>, T)>, key: Seq<char>) -> Seq<(Seq<char>, T)>
    decreases s.len(),
{
    if s.len() == 0 {
        seq![]
    } else {
        let rest = of_key(s.drop_last(), key);
        if s.last().0 == key {
            rest.push(s.last())
        } else {
            rest
        }
    }
}

/// Characters are told apart by their codes.
proof fn lemma_char_codes(a: char, b: char)
    ensures
        (a as u32 == b as u32) == (a == b),
{
}

/// A text does not come before itself, nor before one that it comes behind; and
/// what comes behind what comes behind a text comes behind the text.
proof fn lemma_before(a: Seq<char>, b: Seq<char>, c: Seq<char>)
    ensures
        !before(a, a),
        before(a, b) ==> !before(b, a),
        !before(b, a) && !before(c, b) ==> !before(c, a),
    decreases a.len() + b.len() + c.len(),
{
    if a.len() > 0 && b.len() > 0 && c.len() > 0 {
        lemma_char_codes(a[0], b[0]);
        lemma_char_codes(b[0], c[0]);
        lemma_char_codes(a[0], c[0]);
        lemma_before(a.drop_first(), b.drop_first(), c.drop_first());
    } else if a.len() > 0 && b.len() > 0 {
        lemma_before(a.drop_first(), b.drop_first(), seq![]);
    } else if a.len() > 0 {
        lemma_before(a.drop_first(), seq![], seq![]);
    }
}

/// Inserting an item keeps the order, and the items of each key.
proof fn lemma_inserted<T>(s: Seq<(Seq<char>, T)>, x: (Seq<char>, T))
    requires
        ordered(s),
    ensures
        ordered(inserted(s, x)),
        inserted(s, x).len() == s.len() + 1,
        forall|y: (Seq<char>, T)| #[trigger]
            inserted(s, x).contains(y) ==> y == x || s.contains(y),
        forall|key: Seq<char>| #[trigger]
            of_key(inserted(s, x), key) == of_key(s.push(x), key),
    decreases s.len(),
{
    let r = inserted(s, x);
    if s.len() > 0 && before(x.0, s.last().0) {
        let head = s.drop_last();
        let last = s.last();
        assert(ordered(head)) by {
            assert forall|i: int, j: int| 0 <= i < j < head.len() implies !before(
                (#[trigger] head[j]).0,
                (#[trigger] head[i]).0,
            ) by {
                assert(head[i] == s[i] && head[j] == s[j]);
            }
        }
        lemma_inserted(head, x);
        let front = inserted(head, x);
        assert(r == front.push(last));
        assert forall|i: int, j: int| 0 <= i < j < r.len() implies !before(
            (#[trigger] r[j]).0,
            (#[trigger] r[i]).0,
        ) by {
            if j == r.len() - 1 {
                assert(r[i] == front[i]);
                assert(front.contains(front[i]));
                if front[i] == x {
                    lemma_before(x.0, last.0, last.0);
                } else {
                    assert(head.contains(front[i]));
                    let k = choose|k: int| 0 <= k < head.len() && head[k] == front[i];
                    assert(s[k] == head[k]);
                }
            } else {
                assert(r[i] == front[i] && r[j] == front[j]);
            }
        }
        assert forall|y: (Seq<char>, T)| #[trigger] r.contains(y) implies y == x || s.contains(y) by {
            let k = choose|k: int| 0 <= k < r.len() && r[k] == y;
            if k < front.len() {
                assert(front.contains(front[k]));
                if front[k] != x {
                    let m = choose|m: int| 0 <= m < head.len() && head[m] == front[k];
                    assert(s[m] == y);
                }
            } else {
                assert(s[s.len() - 1] == y);
            }
        }
        assert forall|key: Seq<char>| #[trigger] of_key(r, key) == of_key(s.push(x), key) by {
            assert(r.drop_last() =~= front);
            assert(s.push(x).drop_last() =~= s);
            assert(of_key(front, key) == of_key(head.push(x), key));
            assert(head.push(x).drop_last() =~= head);
            lemma_before(x.0, last.0, last.0);
            assert(x.0 != last.0);
            assert(r.last() == last && s.push(x).last() == x && head.push(x).last() == x);
            let kept = of_key(head, key);
            assert(of_key(s, key) == if last.0 == key {
                kept.push(last)
            } else {
                kept
            });
            assert(of_key(head.push(x), key) == if x.0 == key {
                kept.push(x)
            } else {
                kept
            });
        }
    } else {
        assert forall|i: int, j: int| 0 <= i < j < r.len() implies !before(
            (#[trigger] r[j]).0,
            (#[trigger] r[i]).0,
        ) by {
            if j == r.len() - 1 {
                let last = s.last();
                lemma_before(s[i].0, last.0, x.0);
                if i < s.len() - 1 {
                    assert(!before(s[s.len() - 1].0, s[i].0));
                } else {
                    lemma_before(last.0, last.0, last.0);
                }
            } else {
                assert(r[i] == s[i] && r[j] == s[j]);
            }
        }
        assert forall|y: (Seq<char>, T)| #[trigger] r.contains(y) implies y == x || s.contains(y) by {
            let k = choose|k: int| 0 <= k < r.len() && r[k] == y;
            if k < s.len() {
                assert(s[k] == y);
            }
        }
    }
}

/// Sorting puts the items in the order of their keys, and keeps the items of
/// each key, in the order in which they came.
pub proof fn sorting_is_stable<T>(s: Seq<(Seq<char>, T)>)
    ensures
        ordered(sorted(s)),
        sorted(s).len() == s.len(),
        forall|key: Seq<char>| #[trigger] of_key(sorted(s), key) == of_key(s, key),
    decreases s.len(),
{
    if s.len() > 0 {
        let head = s.drop_last();
        sorting_is_stable(head);
        lemma_inserted(sorted(head), s.last());
        assert forall|key: Seq<char>| #[trigger] of_key(sorted(s), key) == of_key(s, key) by {
            let front = sorted(head);
            assert(of_key(inserted(front, s.last()), key) == of_key(front.push(s.last()), key));
            assert(front.push(s.last()).drop_last() =~= front);
            assert(of_key(front, key) == of_key(head, key));
        }
    }
}

/// The item stays behind the last item that it does not come before.
proof fn lemma_insert_at<T>(s: Seq<(Seq<char>, T)>, x: (Seq<char>, T), k: int)
    requires
        0 <= k <= s.len(),
        forall|i: int| k <= i < s.len() ==> before(x.0, (#[trigger] s[i]).0),
        k > 0 ==> !before(x.0, s[k - 1].0),
    ensures
        inserted(s, x) == s.insert(k, x),
    decreases s.len(),
{
    if k < s.len() {
        assert(before(x.0, s[s.len() - 1].0));
        assert forall|i: int| k <= i < s.drop_last().len() implies before(
            x.0,
            (#[trigger] s.drop_last()[i]).0,
        ) by {
            assert(s.drop_last()[i] == s[i]);
        }
        lemma_insert_at(s.drop_last(), x, k);
        assert(s.insert(k, x) =~= s.drop_last().insert(k, x).push(s.last()));
    } else {
        assert(s.insert(k, x) =~= s.push(x));
    }
}

/// Sorts by key, keeping the order of items of the same key.
pub fn sort_by_key<T>(items: Vec<Keyed<T>>) -> (r: Vec<Keyed<T>>)
    ensures
        keyed(r@) == sorted(keyed(items@)),
{
    let ghost all = keyed(items@);
    let mut out: Vec<Keyed<T>> = Vec::new();
    proof {
        assert(keyed(out@) =~= sorted(all.take(0)));
    }
    for item in it: items
        invariant
            it.seq() == items@,
            all == keyed(items@),
            keyed(out@) == sorted(all.take(it.index() as int)),
    {
        let ghost n = it.index() as int;
        let ghost x = (item.key@, item.value);
        let ghost s = keyed(out@);
        let mut k: usize = out.len();
        while k > 0 && str_before(item.key.as_str(), out[k - 1].key.as_str())
            invariant
                k <= out@.len(),
                s == keyed(out@),
                x.0 == item.key@,
                forall|i: int| k <= i < s.len() ==> before(x.0, (#[trigger] s[i]).0),
            decreases k,
        {
            k = k - 1;
        }
        proof {
            lemma_insert_at(s, x, k as int);
            assert(all.take(n + 1).drop_last() =~= all.take(n));
            assert(all.take(n + 1).last() == x);
        }
        out.insert(k, item);
        proof {
            assert(keyed(out@) =~= s.insert(k as int, x));
        }
    }
    proof {
        assert(all.take(all.len() as int) =~= all);
    }
    out
}

/// The items with their values changed.
pub open spec fn with_values<T, U>(
    s: Seq<(Seq<char>, T)>,
    f: spec_fn(T) -> U,
) -> Seq<(Seq<char>, U)> {
    Seq::new(s.len(), |i: int| (s[i].0, f(s[i].1)))
}

/// Inserting looks at keys alone.
proof fn lemma_inserted_values<T, U>(
    s: Seq<(Seq<char>, T)>,
    x: (Seq<char>, T),
    f: spec_fn(T) -> U,
)
    ensures
        with_values(inserted(s, x), f) == inserted(with_values(s, f), (x.0, f(x.1))),
    decreases s.len(),
{
    let t = with_values(s, f);
    if s.len() > 0 && before(x.0, s.last().0) {
        lemma_inserted_values(s.drop_last(), x, f);
        assert(t.drop_last() =~= with_values(s.drop_last(), f));
        assert(with_values(inserted(s, x), f) =~= with_values(
            inserted(s.drop_last(), x),
            f,
        ).push(t.last()));
    } else {
        assert(with_values(inserted(s, x), f) =~= t.push((x.0, f(x.1))));
    }
}

/// Sorting looks at keys alone.
pub proof fn sorting_looks_at_keys<T, U>(s: Seq<(Seq<char>, T)>, f: spec_fn(T) -> U)
    ensures
        with_values(sorted(s), f) == sorted(with_values(s, f)),
    decreases s.len(),
{
    let t = with_values(s, f);
    if s.len() == 0 {
        assert(with_values(sorted(s), f) =~= sorted(t));
    } else {
        sorting_looks_at_keys(s.drop_last(), f);
        assert(t.drop_last() =~= with_values(s.drop_last(), f));
        lemma_inserted_values(sorted(s.drop_last()), s.last(), f);
    }
}

/// Sorting keeps every item, as often as it stands there, and adds none.
pub proof fn sorting_keeps_every_item<T>(s: Seq<(Seq<char>, T)>)
    ensures
        sorted(s).to_multiset() == s.to_multiset(),
        sorted(s).len() == s.len(),
        forall|x: (Seq<char>, T)| #[trigger] sorted(s).contains(x) <==> s.contains(x),
    decreases s.len(),
{
    broadcast use vstd::seq_lib::group_to_multiset_ensures;

    if s.len() > 0 {
        sorting_keeps_every_item(s.drop_last());
        lemma_inserted_multiset(sorted(s.drop_last()), s.last());
        assert(s =~= s.drop_last().push(s.last()));
    } else {
        assert(sorted(s) =~= s);
    }
    sorting_is_stable(s);
    assert forall|x: (Seq<char>, T)| #[trigger] sorted(s).contains(x) <==> s.contains(x) by {
        assert(sorted(s).contains(x) <==> sorted(s).to_multiset().count(x) > 0);
        assert(s.contains(x) <==> s.to_multiset().count(x) > 0);
    }
}

/// Inserting adds the item to the others.
proof fn lemma_inserted_multiset<T>(s: Seq<(Seq<char>, T)>, x: (Seq<char>, T))
    ensures
        inserted(s, x).to_multiset() == s.to_multiset().insert(x),
    decreases s.len(),
{
    broadcast use vstd::seq_lib::group_to_multiset_ensures;

    if s.len() > 0 && before(x.0, s.last().0) {
        lemma_inserted_multiset(s.drop_last(), x);
        assert(s =~= s.drop_last().push(s.last()));
        assert(inserted(s, x).to_multiset() =~= s.to_multiset().insert(x));
    }
}

} // verus!

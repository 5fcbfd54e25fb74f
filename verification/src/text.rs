//! Text functions over characters: what each one computes is stated on the
//! sequence of characters that a string holds.
use vstd::prelude::*;
use vstd::utf8::{decode_utf8, encode_utf8, valid_utf8};

verus! {

/// `String::push`: the character becomes the last one of the string.
pub assume_specification[ String::push ](s: &mut String, c: char)
    ensures
        final(s)@ == old(s)@.push(c),
;

/// The characters that the Unicode property `White_Space` lists.
pub open spec fn is_space(c: char) -> bool {
    let n = c as u32;
    9 <= n <= 13 || n == 0x20 || n == 0x85 || n == 0xA0 || n == 0x1680 || 0x2000 <= n <= 0x200A
        || n == 0x2028 || n == 0x2029 || n == 0x202F || n == 0x205F || n == 0x3000
}

/// Whether a character is white space.
pub fn char_is_space(c: char) -> (r: bool)
    ensures
        r == is_space(c),
{
    let n: u32 = c as u32;
    (9 <= n && n <= 13) || n == 0x20 || n == 0x85 || n == 0xA0 || n == 0x1680 || (0x2000 <= n && n
        <= 0x200A) || n == 0x2028 || n == 0x2029 || n == 0x202F || n == 0x205F || n == 0x3000
}

/// The characters of a list of strings.
pub open spec fn texts(v: Seq<String>) -> Seq<Seq<char>> {
    Seq::new(v.len(), |i: int| v[i]@)
}

/// The characters of an optional string.
pub open spec fn opt(o: Option<String>) -> Option<Seq<char>> {
    match o {
        Some(s) => Some(s@),
        None => None,
    }
}

/// The characters of a string, in order.
pub fn chars_of(s: &str) -> (v: Vec<char>)
    ensures
        v@ == s@,
{
    let mut v: Vec<char> = Vec::new();
    for c in it: s.chars()
        invariant
            it.seq() == s@,
            v@ == s@.take(it.index() as int),
    {
        proof {
            assert(s@.take(it.index() as int).push(c) =~= s@.take(it.index() + 1));
        }
        v.push(c);
    }
    proof {
        assert(s@.take(s@.len() as int) =~= s@);
    }
    v
}

/// The string that holds the characters `from..to`.
pub fn string_of(chars: &Vec<char>, from: usize, to: usize) -> (r: String)
    requires
        from <= to <= chars@.len(),
    ensures
        r@ == chars@.subrange(from as int, to as int),
{
    let mut r = String::new();
    let mut i: usize = from;
    while i < to
        invariant
            from <= i <= to <= chars@.len(),
            r@ == chars@.subrange(from as int, i as int),
        decreases to - i,
    {
        proof {
            assert(chars@.subrange(from as int, i as int).push(chars@[i as int])
                =~= chars@.subrange(from as int, i + 1));
        }
        r.push(chars[i]);
        i = i + 1;
    }
    r
}

/// A copy of a string slice.
pub fn owned(s: &str) -> (r: String)
    ensures
        r@ == s@,
{
    s.to_owned()
}

/// A copy of an optional string.
pub fn owned_opt(s: &Option<String>) -> (r: Option<String>)
    ensures
        opt(r) == opt(*s),
{
    match s {
        Some(t) => Some(t.clone()),
        None => None,
    }
}

/// Whether two strings hold the same characters.
pub fn str_eq(a: &str, b: &str) -> (r: bool)
    ensures
        r == (a@ == b@),
{
    let x = chars_of(a);
    let y = chars_of(b);
    if x.len() != y.len() {
        return false;
    }
    let mut i: usize = 0;
    while i < x.len()
        invariant
            i <= x@.len(),
            x@.len() == y@.len(),
            x@ == a@,
            y@ == b@,
            forall|j: int| 0 <= j < i ==> x@[j] == y@[j],
        decreases x@.len() - i,
    {
        if x[i] != y[i] {
            return false;
        }
        i = i + 1;
    }
    proof {
        assert(a@ =~= b@);
    }
    true
}

/// Two texts one after the other.
pub fn cat(a: &str, b: &str) -> (r: String)
    ensures
        r@ == a@ + b@,
{
    let mut r = owned(a);
    r.append(b);
    r
}

/// Three texts one after the other.
pub fn cat3(a: &str, b: &str, c: &str) -> (r: String)
    ensures
        r@ == a@ + b@ + c@,
{
    let mut r = cat(a, b);
    r.append(c);
    r
}

/// Four texts one after the other.
pub fn cat4(a: &str, b: &str, c: &str, d: &str) -> (r: String)
    ensures
        r@ == a@ + b@ + c@ + d@,
{
    let mut r = cat3(a, b, c);
    r.append(d);
    r
}

/// Five texts one after the other.
pub fn cat5(a: &str, b: &str, c: &str, d: &str, e: &str) -> (r: String)
    ensures
        r@ == a@ + b@ + c@ + d@ + e@,
{
    let mut r = cat4(a, b, c, d);
    r.append(e);
    r
}

/// The text without the white space at its start.
pub open spec fn trim_start(s: Seq<char>) -> Seq<char>
    decreases s.len(),
{
    if s.len() > 0 && is_space(s[0]) {
        trim_start(s.drop_first())
    } else {
        s
    }
}

/// The text without the white space at its end.
pub open spec fn trim_end(s: Seq<char>) -> Seq<char>
    decreases s.len(),
{
    if s.len() > 0 && is_space(s.last()) {
        trim_end(s.drop_last())
    } else {
        s
    }
}

/// The text without the white space at both ends.
pub open spec fn trimmed(s: Seq<char>) -> Seq<char> {
    trim_end(trim_start(s))
}

/// A copy of the text without the white space at both ends.
pub fn trim(s: &str) -> (r: String)
    ensures
        r@ == trimmed(s@),
{
    let v = chars_of(s);
    let n: usize = v.len();
    let mut a: usize = 0;
    proof {
        assert(s@.skip(0) =~= s@);
    }
    while a < n && char_is_space(v[a])
        invariant
            a <= n == v@.len(),
            v@ == s@,
            trim_start(s@) == trim_start(s@.skip(a as int)),
        decreases n - a,
    {
        proof {
            assert(s@.skip(a as int).drop_first() =~= s@.skip(a + 1));
        }
        a = a + 1;
    }
    let mut b: usize = n;
    proof {
        assert(s@.skip(a as int) =~= s@.subrange(a as int, n as int));
        assert(trim_start(s@) == s@.subrange(a as int, n as int));
    }
    while a < b && char_is_space(v[b - 1])
        invariant
            a <= b <= n == v@.len(),
            v@ == s@,
            trimmed(s@) == trim_end(s@.subrange(a as int, b as int)),
        decreases b,
    {
        proof {
            assert(s@.subrange(a as int, b as int).drop_last() =~= s@.subrange(a as int, b - 1));
        }
        b = b - 1;
    }
    string_of(&v, a, b)
}

/// Whether `p` stands in `s` at position `k`.
pub open spec fn stands_at(s: Seq<char>, p: Seq<char>, k: int) -> bool {
    0 <= k && k + p.len() <= s.len() && s.subrange(k, k + p.len()) == p
}

/// Whether `p` stands somewhere in `s`.
pub open spec fn has(s: Seq<char>, p: Seq<char>) -> bool {
    exists|k: int| #[trigger] stands_at(s, p, k)
}

/// Whether `s` begins with `p`.
pub open spec fn begins(s: Seq<char>, p: Seq<char>) -> bool {
    stands_at(s, p, 0)
}

/// Whether `p` stands in `s` at position `k`.
pub fn matches_at(s: &Vec<char>, p: &Vec<char>, k: usize) -> (r: bool)
    requires
        k <= s@.len(),
    ensures
        r == stands_at(s@, p@, k as int),
{
    if p.len() > s.len() - k {
        return false;
    }
    let mut i: usize = 0;
    while i < p.len()
        invariant
            i <= p@.len(),
            k + p@.len() <= s@.len() <= usize::MAX,
            forall|j: int| 0 <= j < i ==> s@[k + j] == p@[j],
        decreases p@.len() - i,
    {
        if s[k + i] != p[i] {
            proof {
                assert(s@.subrange(k as int, k + p@.len())[i as int] != p@[i as int]);
            }
            return false;
        }
        i = i + 1;
    }
    proof {
        assert(s@.subrange(k as int, k + p@.len()) =~= p@);
    }
    true
}

/// Whether `s` begins with `p`.
pub fn starts_with(s: &str, p: &str) -> (r: bool)
    ensures
        r == begins(s@, p@),
{
    matches_at(&chars_of(s), &chars_of(p), 0)
}

/// What follows `p` in a text that begins with it.
pub open spec fn after_prefix(s: Seq<char>, p: Seq<char>) -> Option<Seq<char>> {
    if begins(s, p) {
        Some(s.skip(p.len() as int))
    } else {
        None
    }
}

/// What follows `p` in a text that begins with it.
pub fn strip_prefix(s: &str, p: &str) -> (r: Option<String>)
    ensures
        opt(r) == after_prefix(s@, p@),
{
    let v = chars_of(s);
    let q = chars_of(p);
    if matches_at(&v, &q, 0) {
        proof {
            assert(s@.subrange(p@.len() as int, s@.len() as int) =~= s@.skip(p@.len() as int));
        }
        Some(string_of(&v, q.len(), v.len()))
    } else {
        None
    }
}

/// The first position of `p` in `s`, where there is one.
pub open spec fn first_match(s: Seq<char>, p: Seq<char>) -> Option<int>
    decreases s.len(),
{
    if begins(s, p) {
        Some(0)
    } else if s.len() == 0 {
        None
    } else {
        match first_match(s.drop_first(), p) {
            Some(k) => Some(k + 1),
            None => None,
        }
    }
}

/// The first match is a match, nothing matches before it, and there is one
/// exactly where the text holds the pattern.
pub proof fn lemma_first_match(s: Seq<char>, p: Seq<char>)
    ensures
        first_match(s, p) is Some == has(s, p),
        first_match(s, p) matches Some(k) ==> stands_at(s, p, k) && forall|j: int|
            0 <= j < k ==> !stands_at(s, p, j),
    decreases s.len(),
{
    if begins(s, p) {
    } else if s.len() == 0 {
        assert forall|k: int| !stands_at(s, p, k) by {
            if stands_at(s, p, k) {
                assert(k == 0);
            }
        }
    } else {
        let t = s.drop_first();
        lemma_first_match(t, p);
        assert forall|k: int| k > 0 implies stands_at(s, p, k) == stands_at(t, p, k - 1) by {
            if k + p.len() <= s.len() {
                assert(s.subrange(k, k + p.len()) =~= t.subrange(k - 1, k - 1 + p.len()));
            }
        }
        if has(s, p) {
            let k = choose|k: int| stands_at(s, p, k);
            assert(k > 0);
            assert(stands_at(t, p, k - 1));
        }
        if first_match(t, p) is Some {
            let k = first_match(t, p)->0;
            assert(stands_at(s, p, k + 1));
        }
    }
}

/// The first position of `p` in `s`, where there is one.
pub fn find(s: &Vec<char>, p: &Vec<char>) -> (r: Option<usize>)
    ensures
        r is Some == first_match(s@, p@) is Some,
        r is Some ==> r->0 == first_match(s@, p@)->0 && r->0 + p@.len() <= s@.len(),
{
    let mut i: usize = 0;
    proof {
        assert(s@.skip(0) =~= s@);
        lemma_first_match(s@, p@);
    }
    loop
        invariant
            i <= s@.len(),
            first_match(s@, p@) is Some == first_match(s@.skip(i as int), p@) is Some,
            first_match(s@, p@) is Some ==> first_match(s@, p@)->0 == i + first_match(
                s@.skip(i as int),
                p@,
            )->0,
            first_match(s@, p@) is Some ==> first_match(s@, p@)->0 + p@.len() <= s@.len(),
        decreases s@.len() - i,
    {
        proof {
            let t = s@.skip(i as int);
            assert(begins(t, p@) == stands_at(s@, p@, i as int)) by {
                if i + p@.len() <= s@.len() {
                    assert(t.subrange(0, p@.len() as int) =~= s@.subrange(i as int, i + p@.len()));
                }
            }
        }
        if matches_at(s, p, i) {
            return Some(i);
        }
        if i == s.len() {
            return None;
        }
        proof {
            assert(s@.skip(i as int).drop_first() =~= s@.skip(i + 1));
        }
        i = i + 1;
    }
}

/// Whether `p` stands somewhere in `s`.
pub fn contains(s: &str, p: &str) -> (r: bool)
    ensures
        r == has(s@, p@),
{
    proof {
        lemma_first_match(s@, p@);
    }
    find(&chars_of(s), &chars_of(p)).is_some()
}

/// The text with each occurrence of `from`, taken from the left and without
/// overlap, replaced by `to`.
pub open spec fn replaced(s: Seq<char>, from: Seq<char>, to: Seq<char>) -> Seq<char>
    decreases s.len(),
{
    if s.len() == 0 || from.len() == 0 {
        s
    } else if begins(s, from) {
        to + replaced(s.skip(from.len() as int), from, to)
    } else {
        seq![s[0]] + replaced(s.drop_first(), from, to)
    }
}

/// The text with each occurrence of `from` replaced by `to`.
pub fn replace(s: &str, from: &str, to: &str) -> (r: String)
    requires
        from@.len() > 0,
    ensures
        r@ == replaced(s@, from@, to@),
{
    let v = chars_of(s);
    let p = chars_of(from);
    let mut out = String::new();
    let mut i: usize = 0;
    proof {
        assert(s@.skip(0) =~= s@);
        assert(Seq::<char>::empty() + replaced(s@, from@, to@) =~= replaced(s@, from@, to@));
    }
    while i < v.len()
        invariant
            i <= v@.len(),
            v@ == s@,
            p@ == from@,
            from@.len() > 0,
            out@ + replaced(s@.skip(i as int), from@, to@) == replaced(s@, from@, to@),
        decreases v@.len() - i,
    {
        let ghost t = s@.skip(i as int);
        proof {
            assert(begins(t, p@) == stands_at(s@, p@, i as int)) by {
                if i + p@.len() <= s@.len() {
                    assert(t.subrange(0, p@.len() as int) =~= s@.subrange(i as int, i + p@.len()));
                }
            }
        }
        if matches_at(&v, &p, i) {
            proof {
                assert(t.skip(p@.len() as int) =~= s@.skip(i + p@.len()));
                assert((out@ + to@) + replaced(s@.skip(i + p@.len()), from@, to@) =~= out@ + (to@
                    + replaced(s@.skip(i + p@.len()), from@, to@)));
            }
            out.append(to);
            i = i + p.len();
        } else {
            proof {
                assert(t.drop_first() =~= s@.skip(i + 1));
                assert(out@.push(s@[i as int]) + replaced(s@.skip(i + 1), from@, to@) =~= out@ + (
                seq![t[0]] + replaced(s@.skip(i + 1), from@, to@)));
            }
            out.push(v[i]);
            i = i + 1;
        }
    }
    proof {
        assert(s@.skip(i as int) =~= Seq::<char>::empty());
        assert(out@ + Seq::<char>::empty() =~= out@);
    }
    out
}

/// The number of characters before the first `c`, or the length where there is
/// none.
pub open spec fn run_before(s: Seq<char>, c: char) -> int
    decreases s.len(),
{
    if s.len() == 0 || s[0] == c {
        0
    } else {
        1 + run_before(s.drop_first(), c)
    }
}

/// `run_before` stays inside the text, stops at a `c` and passes none.
pub proof fn lemma_run_before(s: Seq<char>, c: char)
    ensures
        0 <= run_before(s, c) <= s.len(),
        run_before(s, c) < s.len() ==> s[run_before(s, c)] == c,
        forall|j: int| 0 <= j < run_before(s, c) ==> s[j] != c,
    decreases s.len(),
{
    if s.len() == 0 || s[0] == c {
    } else {
        lemma_run_before(s.drop_first(), c);
        assert forall|j: int| 0 <= j < run_before(s, c) implies s[j] != c by {
            if j > 0 {
                assert(s[j] == s.drop_first()[j - 1]);
            }
        }
    }
}

/// The position of the first `c` from `start` on, or the length.
pub fn next_char(v: &Vec<char>, start: usize, c: char) -> (r: usize)
    requires
        start <= v@.len(),
    ensures
        start <= r <= v@.len(),
        r == start + run_before(v@.skip(start as int), c),
        r < v@.len() ==> v@[r as int] == c,
        forall|j: int| start <= j < r ==> v@[j] != c,
{
    let mut i: usize = start;
    while i < v.len() && v[i] != c
        invariant
            start <= i <= v@.len(),
            start + run_before(v@.skip(start as int), c) == i + run_before(v@.skip(i as int), c),
            forall|j: int| start <= j < i ==> v@[j] != c,
        decreases v@.len() - i,
    {
        proof {
            assert(v@.skip(i as int).drop_first() =~= v@.skip(i + 1));
        }
        i = i + 1;
    }
    proof {
        if i == v@.len() {
            assert(v@.skip(i as int).len() == 0);
        }
    }
    i
}

/// The pieces between the occurrences of `c`.
pub open spec fn pieces(s: Seq<char>, c: char) -> Seq<Seq<char>>
    decreases s.len(),
{
    let k = run_before(s, c);
    if 0 <= k < s.len() {
        seq![s.take(k)] + pieces(s.skip(k + 1), c)
    } else {
        seq![s]
    }
}

/// The pieces between the occurrences of `c`.
pub fn split(s: &str, c: char) -> (r: Vec<String>)
    ensures
        texts(r@) == pieces(s@, c),
        r@.len() >= 1,
{
    let v = chars_of(s);
    let mut out: Vec<String> = Vec::new();
    let mut i: usize = 0;
    proof {
        assert(s@.skip(0) =~= s@);
        assert(texts(out@) + pieces(s@, c) =~= pieces(s@, c));
    }
    loop
        invariant
            i <= v@.len(),
            v@ == s@,
            texts(out@) + pieces(s@.skip(i as int), c) == pieces(s@, c),
        decreases v@.len() - i,
    {
        let ghost t = s@.skip(i as int);
        let ghost before = out@;
        let k: usize = next_char(&v, i, c);
        let piece = string_of(&v, i, k);
        proof {
            lemma_run_before(t, c);
            assert(piece@ =~= t.take(k - i));
        }
        out.push(piece);
        proof {
            assert(texts(out@) =~= texts(before).push(t.take(k - i)));
        }
        if k == v.len() {
            proof {
                assert(t.take(k - i) =~= t);
                assert(texts(out@) =~= texts(before) + seq![t]);
            }
            return out;
        }
        proof {
            assert(t.skip(k - i + 1) =~= s@.skip(k + 1));
            assert(texts(out@) + pieces(s@.skip(k + 1), c) =~= texts(before) + (seq![t.take(k - i)]
                + pieces(s@.skip(k + 1), c)));
        }
        i = k + 1;
    }
}

/// A line without the carriage return at its end.
pub open spec fn without_cr(s: Seq<char>) -> Seq<char> {
    if s.len() > 0 && s.last() == '\r' {
        s.drop_last()
    } else {
        s
    }
}

/// The lines of a text: a line feed ends a line, with the carriage return
/// before it; what follows the last line feed is a line where it is not empty.
pub open spec fn line_list(s: Seq<char>) -> Seq<Seq<char>>
    decreases s.len(),
{
    let k = run_before(s, '\n');
    if s.len() == 0 {
        seq![]
    } else if 0 <= k < s.len() {
        seq![without_cr(s.take(k))] + line_list(s.skip(k + 1))
    } else {
        seq![s]
    }
}

/// The lines of a text.
pub fn lines(s: &str) -> (r: Vec<String>)
    ensures
        texts(r@) == line_list(s@),
{
    let v = chars_of(s);
    let mut out: Vec<String> = Vec::new();
    let mut i: usize = 0;
    proof {
        assert(s@.skip(0) =~= s@);
        assert(texts(out@) + line_list(s@) =~= line_list(s@));
    }
    while i < v.len()
        invariant
            i <= v@.len(),
            v@ == s@,
            texts(out@) + line_list(s@.skip(i as int)) == line_list(s@),
        decreases v@.len() - i,
    {
        let ghost t = s@.skip(i as int);
        let ghost before = out@;
        let k: usize = next_char(&v, i, '\n');
        proof {
            lemma_run_before(t, '\n');
        }
        if k == v.len() {
            let piece = string_of(&v, i, k);
            proof {
                assert(piece@ =~= t);
            }
            out.push(piece);
            proof {
                assert(texts(out@) =~= texts(before) + seq![t]);
            }
            return out;
        }
        let e: usize = if k > i && v[k - 1] == '\r' {
            k - 1
        } else {
            k
        };
        let piece = string_of(&v, i, e);
        proof {
            assert(piece@ =~= without_cr(t.take(k - i)));
        }
        out.push(piece);
        proof {
            assert(texts(out@) =~= texts(before).push(without_cr(t.take(k - i))));
            assert(t.skip(k - i + 1) =~= s@.skip(k + 1));
            assert(texts(out@) + line_list(s@.skip(k + 1)) =~= texts(before) + (seq![
                without_cr(t.take(k - i)),
            ] + line_list(s@.skip(k + 1))));
        }
        i = k + 1;
    }
    proof {
        assert(s@.skip(i as int).len() == 0);
        assert(texts(out@) + Seq::<Seq<char>>::empty() =~= texts(out@));
    }
    out
}

/// The number of leading characters that are no white space.
pub open spec fn word_len(s: Seq<char>) -> int
    decreases s.len(),
{
    if s.len() == 0 || is_space(s[0]) {
        0
    } else {
        1 + word_len(s.drop_first())
    }
}

/// `word_len` stays inside the text.
pub proof fn lemma_word_len(s: Seq<char>)
    ensures
        0 <= word_len(s) <= s.len(),
    decreases s.len(),
{
    if s.len() == 0 || is_space(s[0]) {
    } else {
        lemma_word_len(s.drop_first());
    }
}

/// The runs of characters that are no white space.
pub open spec fn word_list(s: Seq<char>) -> Seq<Seq<char>>
    decreases s.len(),
{
    let k = word_len(s);
    if s.len() == 0 {
        seq![]
    } else if is_space(s[0]) {
        word_list(s.drop_first())
    } else if 0 < k <= s.len() {
        seq![s.take(k)] + word_list(s.skip(k))
    } else {
        seq![]
    }
}

/// The words of a text, white space between them.
pub fn words(s: &str) -> (r: Vec<String>)
    ensures
        texts(r@) == word_list(s@),
{
    let v = chars_of(s);
    let mut out: Vec<String> = Vec::new();
    let mut i: usize = 0;
    proof {
        assert(s@.skip(0) =~= s@);
        assert(texts(out@) + word_list(s@) =~= word_list(s@));
    }
    while i < v.len()
        invariant
            i <= v@.len(),
            v@ == s@,
            texts(out@) + word_list(s@.skip(i as int)) == word_list(s@),
        decreases v@.len() - i,
    {
        let ghost t = s@.skip(i as int);
        if char_is_space(v[i]) {
            proof {
                assert(t.drop_first() =~= s@.skip(i + 1));
            }
            i = i + 1;
        } else {
            let ghost before = out@;
            let mut k: usize = i;
            while k < v.len() && !char_is_space(v[k])
                invariant
                    i <= k <= v@.len(),
                    v@ == s@,
                    t == s@.skip(i as int),
                    i + word_len(t) == k + word_len(s@.skip(k as int)),
                decreases v@.len() - k,
            {
                proof {
                    assert(s@.skip(k as int).drop_first() =~= s@.skip(k + 1));
                }
                k = k + 1;
            }
            proof {
                lemma_word_len(t.drop_first());
                if k == v@.len() {
                    assert(s@.skip(k as int).len() == 0);
                }
                assert(k == i + word_len(t));
            }
            let piece = string_of(&v, i, k);
            proof {
                assert(piece@ =~= t.take(k - i));
            }
            out.push(piece);
            proof {
                assert(texts(out@) =~= texts(before).push(t.take(k - i)));
                assert(t.skip(k - i) =~= s@.skip(k as int));
                assert(texts(out@) + word_list(s@.skip(k as int)) =~= texts(before) + (seq![
                    t.take(k - i),
                ] + word_list(s@.skip(k as int))));
            }
            i = k;
        }
    }
    proof {
        assert(s@.skip(i as int).len() == 0);
        assert(texts(out@) + Seq::<Seq<char>>::empty() =~= texts(out@));
    }
    out
}

/// Whether a list has a text in it.
pub fn holds(list: &Vec<String>, s: &str) -> (r: bool)
    ensures
        r == texts(list@).contains(s@),
{
    let ghost all = texts(list@);
    let mut i: usize = 0;
    while i < list.len()
        invariant
            i <= list@.len(),
            all == texts(list@),
            forall|j: int| 0 <= j < i ==> all[j] != s@,
        decreases list@.len() - i,
    {
        if str_eq(list[i].as_str(), s) {
            proof {
                assert(all[i as int] == s@);
            }
            return true;
        }
        i = i + 1;
    }
    false
}

/// The parts with `sep` between them.
pub open spec fn joined(parts: Seq<Seq<char>>, sep: Seq<char>) -> Seq<char>
    decreases parts.len(),
{
    if parts.len() == 0 {
        seq![]
    } else if parts.len() == 1 {
        parts[0]
    } else {
        joined(parts.drop_last(), sep) + sep + parts.last()
    }
}

/// The parts with `sep` between them.
pub fn join(parts: &Vec<String>, sep: &str) -> (r: String)
    ensures
        r@ == joined(texts(parts@), sep@),
{
    let mut out = String::new();
    let ghost all = texts(parts@);
    let mut i: usize = 0;
    while i < parts.len()
        invariant
            i <= parts@.len(),
            all == texts(parts@),
            out@ == joined(all.take(i as int), sep@),
        decreases parts@.len() - i,
    {
        proof {
            assert(all.take(i + 1).drop_last() =~= all.take(i as int));
        }
        if i > 0 {
            out.append(sep);
        } else {
            proof {
                assert(out@ + parts@[0]@ =~= parts@[0]@);
            }
        }
        out.append(parts[i].as_str());
        i = i + 1;
    }
    proof {
        assert(all.take(i as int) =~= all);
    }
    out
}

/// At most the first `n` characters.
pub open spec fn first_chars(s: Seq<char>, n: int) -> Seq<char> {
    if s.len() <= n {
        s
    } else {
        s.take(n)
    }
}

/// At most the first `n` characters.
pub fn take_chars(s: &str, n: usize) -> (r: String)
    ensures
        r@ == first_chars(s@, n as int),
{
    let v = chars_of(s);
    if v.len() <= n {
        proof {
            assert(v@.subrange(0, v@.len() as int) =~= s@);
        }
        string_of(&v, 0, v.len())
    } else {
        proof {
            assert(v@.subrange(0, n as int) =~= s@.take(n as int));
        }
        string_of(&v, 0, n)
    }
}

/// The number of characters.
pub fn char_count(s: &str) -> (n: usize)
    ensures
        n == s@.len(),
{
    let v = chars_of(s);
    v.len()
}

/// Whether `a` comes before `b` in the order of characters.
pub open spec fn before(a: Seq<char>, b: Seq<char>) -> bool
    decreases a.len(),
{
    if b.len() == 0 {
        false
    } else if a.len() == 0 {
        true
    } else if a[0] == b[0] {
        before(a.drop_first(), b.drop_first())
    } else {
        (a[0] as u32) < (b[0] as u32)
    }
}

/// Whether `a` comes before `b` in the order of characters.
pub fn str_before(a: &str, b: &str) -> (r: bool)
    ensures
        r == before(a@, b@),
{
    let x = chars_of(a);
    let y = chars_of(b);
    let mut i: usize = 0;
    proof {
        assert(a@.skip(0) =~= a@);
        assert(b@.skip(0) =~= b@);
    }
    while i < x.len() && i < y.len()
        invariant
            i <= x@.len(),
            i <= y@.len(),
            x@ == a@,
            y@ == b@,
            before(a@, b@) == before(a@.skip(i as int), b@.skip(i as int)),
        decreases x@.len() - i,
    {
        if x[i] != y[i] {
            return (x[i] as u32) < (y[i] as u32);
        }
        proof {
            assert(a@.skip(i as int).drop_first() =~= a@.skip(i + 1));
            assert(b@.skip(i as int).drop_first() =~= b@.skip(i + 1));
        }
        i = i + 1;
    }
    i < y.len()
}

/// An ASCII capital letter as its small letter, and any other character as it is.
pub open spec fn ascii_lower(c: char) -> char {
    if 65 <= c as u32 <= 90 {
        (c as u8 + 32) as u8 as char
    } else {
        c
    }
}

/// Whether all characters are ASCII.
pub open spec fn is_ascii(s: Seq<char>) -> bool {
    forall|i: int| 0 <= i < s.len() ==> (#[trigger] s[i]) as u32 <= 127
}

/// The lowercase equivalent of a text (`str::to_lowercase`).
pub uninterp spec fn lowercase(s: Seq<char>) -> Seq<char>;

/// `str::to_lowercase`: the lowercase equivalent of the text. In a text that is
/// all ASCII, each capital letter becomes its small letter and nothing else
/// changes; on other texts nothing more is said.
#[verifier::external_body]
pub(crate) fn to_lowercase(s: &str) -> (r: String)
    ensures
        r@ == lowercase(s@),
        is_ascii(s@) ==> r@ == s@.map_values(|c: char| ascii_lower(c)),
{
    s.to_lowercase()
}

/// The text of bytes, with what is no text in them replaced
/// (`String::from_utf8_lossy`).
pub uninterp spec fn lossy(bytes: Seq<u8>) -> Seq<char>;

/// `String::from_utf8_lossy`: the text of the bytes, with what is not UTF-8
/// replaced. Bytes that are UTF-8 are decoded as they stand; how the rest is
/// replaced is not said.
#[verifier::external_body]
pub(crate) fn from_utf8_lossy(bytes: &Vec<u8>) -> (r: String)
    ensures
        r@ == lossy(bytes@),
        valid_utf8(bytes@) ==> r@ == decode_utf8(bytes@),
{
    String::from_utf8_lossy(bytes).into_owned()
}

/// How many characters stand before the first one of a set, or all of them.
pub open spec fn run_without(s: Seq<char>, set: Seq<char>) -> int
    decreases s.len(),
{
    if s.len() == 0 || set.contains(s[0]) {
        0
    } else {
        1 + run_without(s.drop_first(), set)
    }
}

/// The characters before the first one of a set, or all of them.
pub open spec fn until_any(s: Seq<char>, set: Seq<char>) -> Seq<char> {
    s.take(run_without(s, set))
}

/// A text without its leading characters of a set.
pub open spec fn trim_start_any(s: Seq<char>, set: Seq<char>) -> Seq<char>
    decreases s.len(),
{
    if s.len() > 0 && set.contains(s[0]) {
        trim_start_any(s.drop_first(), set)
    } else {
        s
    }
}

/// A text without its trailing characters of a set.
pub open spec fn trim_end_any(s: Seq<char>, set: Seq<char>) -> Seq<char>
    decreases s.len(),
{
    if s.len() > 0 && set.contains(s.last()) {
        trim_end_any(s.drop_last(), set)
    } else {
        s
    }
}

/// Whether a character is one of a set.
fn is_one_of(c: char, set: &Vec<char>) -> (r: bool)
    ensures
        r == set@.contains(c),
{
    let mut i: usize = 0;
    while i < set.len()
        invariant
            i <= set@.len(),
            forall|j: int| 0 <= j < i ==> set@[j] != c,
        decreases set@.len() - i,
    {
        if set[i] == c {
            return true;
        }
        i = i + 1;
    }
    false
}

/// The characters before the first one of a set, or all of them.
pub fn str_until_any(s: &str, set: &str) -> (r: String)
    ensures
        r@ == until_any(s@, set@),
{
    let v = chars_of(s);
    let members = chars_of(set);
    let mut i: usize = 0;
    proof {
        assert(v@.skip(0) =~= v@);
    }
    while i < v.len() && !is_one_of(v[i], &members)
        invariant
            i <= v@.len(),
            v@ == s@,
            members@ == set@,
            run_without(s@, set@) == i + run_without(v@.skip(i as int), set@),
        decreases v@.len() - i,
    {
        proof {
            assert(v@.skip(i as int).drop_first() =~= v@.skip(i + 1));
        }
        i = i + 1;
    }
    let r = string_of(&v, 0, i);
    proof {
        assert(r@ =~= until_any(s@, set@));
    }
    r
}

/// A text without its leading and trailing characters of a set.
pub fn trim_any(s: &str, set: &str) -> (r: String)
    ensures
        r@ == trim_end_any(trim_start_any(s@, set@), set@),
{
    let v = chars_of(s);
    let members = chars_of(set);
    let mut i: usize = 0;
    proof {
        assert(v@.skip(0) =~= v@);
    }
    while i < v.len() && is_one_of(v[i], &members)
        invariant
            i <= v@.len(),
            v@ == s@,
            members@ == set@,
            trim_start_any(s@, set@) == trim_start_any(v@.skip(i as int), set@),
        decreases v@.len() - i,
    {
        proof {
            assert(v@.skip(i as int).drop_first() =~= v@.skip(i + 1));
        }
        i = i + 1;
    }
    let ghost t = v@.skip(i as int);
    let mut j: usize = v.len();
    proof {
        assert(trim_start_any(s@, set@) == t);
        assert(v@.subrange(i as int, j as int) =~= t);
    }
    while j > i && is_one_of(v[j - 1], &members)
        invariant
            i <= j <= v@.len(),
            members@ == set@,
            trim_end_any(t, set@) == trim_end_any(v@.subrange(i as int, j as int), set@),
        decreases j,
    {
        proof {
            assert(v@.subrange(i as int, j as int).drop_last() =~= v@.subrange(i as int, j - 1));
        }
        j = j - 1;
    }
    string_of(&v, i, j)
}

/// Whether a text ends with another.
pub open spec fn ends(s: Seq<char>, p: Seq<char>) -> bool {
    stands_at(s, p, s.len() - p.len())
}

/// Whether a text ends with another.
pub fn ends_with(s: &str, p: &str) -> (r: bool)
    ensures
        r == ends(s@, p@),
{
    let v = chars_of(s);
    let w = chars_of(p);
    if w.len() > v.len() {
        false
    } else {
        matches_at(&v, &w, v.len() - w.len())
    }
}

/// The number of bytes of a text.
pub open spec fn bytes_in(s: Seq<char>) -> nat {
    encode_utf8(s).len()
}

/// The number of bytes of a text.
pub fn byte_len(s: &str) -> (n: usize)
    ensures
        n == bytes_in(s@),
{
    s.as_bytes().len()
}

/// `String::from_utf8`: the text whose bytes these are, where they are UTF-8.
#[verifier::external_body]
pub(crate) fn from_utf8(bytes: Vec<u8>) -> (r: Option<String>)
    ensures
        r is Some == valid_utf8(bytes@),
        r is Some ==> r->0@ == decode_utf8(bytes@),
{
    String::from_utf8(bytes).ok()
}

/// White space is a text's blank, tab, line feed and carriage return, among others; no
/// letter, digit or sign of ASCII is white space.
pub proof fn printing_characters_are_no_space(c: char)
    ensures
        c == ' ' || c == '\t' || c == '\n' || c == '\r' ==> is_space(c),
        33 <= c as u32 <= 126 ==> !is_space(c),
{
}

/// Trimming takes white space off both ends, all of it and nothing else: what is left
/// is a run of the text with only white space before and behind it, and it neither
/// begins nor ends with white space.
pub proof fn trimming_takes_white_space_only(s: Seq<char>) -> (a: int)
    ensures
        0 <= a,
        a + trimmed(s).len() <= s.len(),
        trimmed(s) == s.subrange(a, a + trimmed(s).len()),
        forall|i: int| 0 <= i < a ==> is_space(#[trigger] s[i]),
        forall|i: int| a + trimmed(s).len() <= i < s.len() ==> is_space(#[trigger] s[i]),
        trimmed(s).len() > 0 ==> !is_space(trimmed(s)[0]) && !is_space(trimmed(s).last()),
{
    let a = lemma_trim_start(s);
    let t = trim_start(s);
    lemma_trim_end(t);
    let n = trimmed(s).len();
    assert(trimmed(s) =~= s.subrange(a, a + n));
    assert forall|i: int| a + n <= i < s.len() implies is_space(#[trigger] s[i]) by {
        assert(s[i] == t[i - a]);
    }
    if n > 0 {
        assert(trimmed(s)[0] == t[0]);
    }
    a
}

/// What trimming the start of a text takes off.
proof fn lemma_trim_start(s: Seq<char>) -> (a: int)
    ensures
        0 <= a <= s.len(),
        trim_start(s) == s.skip(a),
        forall|i: int| 0 <= i < a ==> is_space(#[trigger] s[i]),
        a < s.len() ==> !is_space(s[a]),
    decreases s.len(),
{
    if s.len() > 0 && is_space(s[0]) {
        let t = s.drop_first();
        let b = lemma_trim_start(t);
        assert(trim_start(s) =~= s.skip(b + 1));
        assert forall|i: int| 0 <= i < b + 1 implies is_space(#[trigger] s[i]) by {
            if i > 0 {
                assert(s[i] == t[i - 1]);
            }
        }
        if b + 1 < s.len() {
            assert(s[b + 1] == t[b]);
        }
        b + 1
    } else {
        assert(s.skip(0) =~= s);
        0
    }
}

/// What trimming the end of a text takes off.
proof fn lemma_trim_end(s: Seq<char>)
    ensures
        trim_end(s).len() <= s.len(),
        trim_end(s) == s.take(trim_end(s).len() as int),
        forall|i: int| trim_end(s).len() <= i < s.len() ==> is_space(#[trigger] s[i]),
        trim_end(s).len() > 0 ==> !is_space(trim_end(s).last()),
    decreases s.len(),
{
    if s.len() > 0 && is_space(s.last()) {
        let t = s.drop_last();
        lemma_trim_end(t);
        assert(trim_end(s) =~= s.take(trim_end(s).len() as int));
        assert forall|i: int| trim_end(s).len() <= i < s.len() implies is_space(
            #[trigger] s[i],
        ) by {
            if i < t.len() {
                assert(s[i] == t[i]);
            }
        }
    } else {
        assert(s.take(s.len() as int) =~= s);
    }
}

/// A text that neither begins nor ends with white space comes back when it is trimmed
/// with white space around it.
pub proof fn white_space_around_a_text_is_trimmed(front: Seq<char>, t: Seq<char>, back: Seq<char>)
    requires
        forall|i: int| 0 <= i < front.len() ==> is_space(#[trigger] front[i]),
        forall|i: int| 0 <= i < back.len() ==> is_space(#[trigger] back[i]),
        t.len() > 0 ==> !is_space(t[0]) && !is_space(t.last()),
    ensures
        trimmed(front + t + back) == t,
{
    let s = front + t + back;
    let a = trimming_takes_white_space_only(s);
    let n = trimmed(s).len();
    if n > 0 {
        assert(trimmed(s)[0] == s[a]);
        assert(trimmed(s).last() == s[a + n - 1]);
    }
    if t.len() > 0 {
        assert(s[front.len() as int] == t[0]);
        assert(s[front.len() + t.len() - 1] == t.last());
        if a < front.len() {
            assert(s[a] == front[a]);
        }
        if a + n - 1 >= front.len() + t.len() {
            assert(s[a + n - 1] == back[a + n - 1 - front.len() - t.len()]);
        }
        assert(a == front.len());
        assert(n == t.len());
        assert(trimmed(s) =~= t);
    } else {
        if n > 0 {
            if a < front.len() {
                assert(s[a] == front[a]);
            } else {
                assert(s[a] == back[a - front.len()]);
            }
        }
        assert(trimmed(s) =~= t);
    }
}

/// The pieces of a text with the separator between them are the text again, and the
/// separator stands in none of them.
pub proof fn pieces_make_up_the_text(s: Seq<char>, c: char)
    ensures
        pieces(s, c).len() > 0,
        joined(pieces(s, c), seq![c]) == s,
        forall|i: int| 0 <= i < pieces(s, c).len() ==> !(#[trigger] pieces(s, c)[i]).contains(c),
    decreases s.len(),
{
    lemma_run_before(s, c);
    let k = run_before(s, c);
    if k < s.len() {
        let rest = s.skip(k + 1);
        pieces_make_up_the_text(rest, c);
        lemma_joined_first(s.take(k), pieces(rest, c), seq![c]);
        assert(s =~= s.take(k) + seq![c] + rest);
        assert(pieces(s, c) == seq![s.take(k)] + pieces(rest, c));
        assert forall|i: int| 0 <= i < pieces(s, c).len() implies !(#[trigger] pieces(
            s,
            c,
        )[i]).contains(c) by {
            if i > 0 {
                assert(pieces(s, c)[i] == pieces(rest, c)[i - 1]);
            }
        }
    } else {
        assert(pieces(s, c) == seq![s]);
    }
}

/// Parts that are joined begin with the first of them.
proof fn lemma_joined_first(first: Seq<char>, rest: Seq<Seq<char>>, sep: Seq<char>)
    requires
        rest.len() > 0,
    ensures
        joined(seq![first] + rest, sep) == first + sep + joined(rest, sep),
    decreases rest.len(),
{
    let all = seq![first] + rest;
    assert(all.drop_last() =~= seq![first] + rest.drop_last());
    assert(all.last() == rest.last());
    if rest.len() == 1 {
        assert(all.drop_last() =~= seq![first]);
        assert(joined(seq![first], sep) == first);
        assert(joined(rest, sep) == rest[0]);
        assert(joined(all, sep) == first + sep + rest[0]);
    } else {
        lemma_joined_first(first, rest.drop_last(), sep);
        assert(joined(all, sep) =~= first + sep + joined(rest, sep));
    }
}

/// The lines of a text that is put together of lines are those lines: one after the
/// other, each without the line feed, or the carriage return and line feed, that ends
/// it.
pub proof fn lines_come_back(line: Seq<char>, rest: Seq<char>)
    requires
        !line.contains('\n'),
    ensures
        line.len() == 0 || line.last() != '\r' ==> line_list(line + seq!['\n'] + rest) == seq![line]
            + line_list(rest),
        line_list(line + seq!['\r', '\n'] + rest) == seq![line] + line_list(rest),
        line.len() > 0 ==> line_list(line) == seq![line],
        line_list(Seq::empty()).len() == 0,
{
    let n = line.len() as int;
    let a = line + seq!['\n'] + rest;
    lemma_run_is(a, '\n', n);
    assert(a.take(n) =~= line);
    assert(a.skip(n + 1) =~= rest);
    let b = line + seq!['\r', '\n'] + rest;
    assert forall|i: int| 0 <= i < n + 1 implies b[i] != '\n' by {
        if i < line.len() {
            assert(b[i] == line[i]);
        }
    }
    lemma_run_is(b, '\n', n + 1);
    assert(b.take(n + 1).drop_last() =~= line);
    assert(b.skip(n + 2) =~= rest);
    lemma_run_is(line, '\n', n);
}

/// Where the first of a character is, is fixed by what is before it.
proof fn lemma_run_is(s: Seq<char>, c: char, n: int)
    requires
        0 <= n <= s.len(),
        n < s.len() ==> s[n] == c,
        forall|i: int| 0 <= i < n ==> s[i] != c,
    ensures
        run_before(s, c) == n,
{
    lemma_run_before(s, c);
    let m = run_before(s, c);
    if m < n {
        assert(s[m] != c);
    }
    if n < m {
        assert(s[n] != c);
    }
}

/// The words of a text are runs without white space: a word with white space behind it
/// is the first, and white space before a word does not matter.
pub proof fn words_are_kept_apart_by_white_space(word: Seq<char>, space: char, rest: Seq<char>)
    requires
        is_space(space),
        forall|i: int| 0 <= i < word.len() ==> !is_space(#[trigger] word[i]),
    ensures
        word_list(seq![space] + rest) == word_list(rest),
        word.len() > 0 ==> word_list(word + seq![space] + rest) == seq![word] + word_list(rest),
        word.len() > 0 ==> word_list(word) == seq![word],
        word_list(Seq::empty()).len() == 0,
{
    assert((seq![space] + rest).drop_first() =~= rest);
    if word.len() > 0 {
        let s = word + seq![space] + rest;
        lemma_word_len_is(s, word.len() as int);
        assert(s.take(word.len() as int) =~= word);
        assert(s.skip(word.len() as int) =~= seq![space] + rest);
        lemma_word_len_is(word, word.len() as int);
        assert(word.take(word.len() as int) =~= word);
        assert(word.skip(word.len() as int) =~= Seq::empty());
        assert(word_list(Seq::<char>::empty()) =~= seq![]);
        assert(word_list(word) =~= seq![word]);
        assert(s[0] == word[0]);
    }
}

/// How long the first word is, is fixed by what ends it.
proof fn lemma_word_len_is(s: Seq<char>, n: int)
    requires
        0 <= n <= s.len(),
        n < s.len() ==> is_space(s[n]),
        forall|i: int| 0 <= i < n ==> !is_space(#[trigger] s[i]),
    ensures
        word_len(s) == n,
    decreases s.len(),
{
    if n > 0 {
        let t = s.drop_first();
        assert forall|i: int| 0 <= i < n - 1 implies !is_space(#[trigger] t[i]) by {
            assert(t[i] == s[i + 1]);
        }
        lemma_word_len_is(t, n - 1);
        assert(!is_space(s[0]));
    }
}

/// Cutting a text keeps its first characters: all of it where it is short enough, else
/// exactly so many.
pub proof fn cutting_keeps_the_front(s: Seq<char>, n: int)
    requires
        n >= 0,
    ensures
        s.len() <= n ==> first_chars(s, n) == s,
        s.len() > n ==> first_chars(s, n).len() == n,
        first_chars(s, n).is_prefix_of(s),
{
}

/// Where a text is replaced, nothing else changes: the text before an occurrence is
/// kept as it is where no occurrence begins in it, and a text without occurrences
/// stays.
pub proof fn replacing_changes_occurrences_only(
    front: Seq<char>,
    from: Seq<char>,
    to: Seq<char>,
    rest: Seq<char>,
)
    requires
        from.len() > 0,
        forall|k: int| 0 <= k < front.len() ==> !#[trigger] stands_at(front + from + rest, from, k),
    ensures
        replaced(front + from + rest, from, to) == front + to + replaced(rest, from, to),
    decreases front.len(),
{
    let s = front + from + rest;
    if front.len() == 0 {
        assert(s.subrange(0, from.len() as int) =~= from);
        assert(begins(s, from));
        assert(s.skip(from.len() as int) =~= rest);
        assert(front + to + replaced(rest, from, to) =~= to + replaced(rest, from, to));
    } else {
        assert(!stands_at(s, from, 0));
        let t = front.drop_first();
        assert(s.drop_first() =~= t + from + rest);
        assert forall|k: int| 0 <= k < t.len() implies !#[trigger] stands_at(
            t + from + rest,
            from,
            k,
        ) by {
            assert(!stands_at(s, from, k + 1));
            if stands_at(t + from + rest, from, k) {
                assert(s.subrange(k + 1, k + 1 + from.len()) =~= (t + from + rest).subrange(
                    k,
                    k + from.len(),
                ));
            }
        }
        replacing_changes_occurrences_only(t, from, to, rest);
        assert(seq![s[0]] + (t + to + replaced(rest, from, to)) =~= front + to + replaced(
            rest,
            from,
            to,
        ));
    }
}

/// A text in which the other does not stand is not changed.
pub proof fn nothing_to_replace(s: Seq<char>, from: Seq<char>, to: Seq<char>)
    requires
        has(s, from) == false,
    ensures
        replaced(s, from, to) == s,
    decreases s.len(),
{
    if s.len() > 0 && from.len() > 0 {
        assert(!stands_at(s, from, 0));
        let t = s.drop_first();
        assert(has(t, from) == false) by {
            if has(t, from) {
                let k = choose|k: int| #[trigger] stands_at(t, from, k);
                assert(s.subrange(k + 1, k + 1 + from.len()) =~= t.subrange(k, k + from.len()));
                assert(stands_at(s, from, k + 1));
            }
        }
        nothing_to_replace(t, from, to);
        assert(seq![s[0]] + t =~= s);
    }
}

/// The order of texts is that of the first character in which they differ; a text comes
/// before those that begin with it and go on; and of two texts that differ exactly one
/// comes before the other.
pub proof fn texts_are_ordered_by_characters(a: Seq<char>, b: Seq<char>, k: int)
    requires
        0 <= k <= a.len(),
        k <= b.len(),
        a.take(k) == b.take(k),
    ensures
        k < a.len() && k < b.len() && a[k] != b[k] ==> before(a, b) == ((a[k] as u32) < (
        b[k] as u32)),
        k == a.len() && k < b.len() ==> before(a, b),
        k == b.len() ==> !before(a, b),
    decreases k,
{
    if k > 0 {
        assert(a.take(k)[0] == a[0] && b.take(k)[0] == b[0]);
        let x = a.drop_first();
        let y = b.drop_first();
        assert(x.take(k - 1) =~= a.take(k).drop_first());
        assert(y.take(k - 1) =~= b.take(k).drop_first());
        texts_are_ordered_by_characters(x, y, k - 1);
    }
}

/// What stands before the first character of a set, and what follows.
pub proof fn texts_are_cut_at_a_set(s: Seq<char>, set: Seq<char>)
    ensures
        until_any(s, set).is_prefix_of(s),
        forall|i: int| 0 <= i < until_any(s, set).len() ==> !set.contains(
            #[trigger] until_any(s, set)[i],
        ),
        until_any(s, set).len() < s.len() ==> set.contains(s[until_any(s, set).len() as int]),
{
    lemma_run_without(s, set);
}

/// How many characters stand before the first one of a set.
proof fn lemma_run_without(s: Seq<char>, set: Seq<char>)
    ensures
        0 <= run_without(s, set) <= s.len(),
        run_without(s, set) < s.len() ==> set.contains(s[run_without(s, set)]),
        forall|i: int| 0 <= i < run_without(s, set) ==> !set.contains(#[trigger] s[i]),
    decreases s.len(),
{
    if s.len() > 0 && !set.contains(s[0]) {
        let t = s.drop_first();
        lemma_run_without(t, set);
        assert forall|i: int| 0 <= i < run_without(s, set) implies !set.contains(
            #[trigger] s[i],
        ) by {
            if i > 0 {
                assert(s[i] == t[i - 1]);
            }
        }
    }
}

/// Taking the characters of a set off both ends takes nothing else: what is left is a
/// run of the text with only such characters around it, and it neither begins nor ends
/// with one.
pub proof fn trimming_a_set_takes_only_the_set(s: Seq<char>, set: Seq<char>) -> (a: int)
    ensures
        ({
            let t = trim_end_any(trim_start_any(s, set), set);
            &&& 0 <= a && a + t.len() <= s.len()
            &&& t == s.subrange(a, a + t.len())
            &&& forall|i: int| 0 <= i < a ==> set.contains(#[trigger] s[i])
            &&& forall|i: int| a + t.len() <= i < s.len() ==> set.contains(#[trigger] s[i])
            &&& t.len() > 0 ==> !set.contains(t[0]) && !set.contains(t.last())
        }),
{
    let a = lemma_trim_start_any(s, set);
    let m = trim_start_any(s, set);
    lemma_trim_end_any(m, set);
    let t = trim_end_any(m, set);
    assert(t =~= s.subrange(a, a + t.len()));
    assert forall|i: int| a + t.len() <= i < s.len() implies set.contains(#[trigger] s[i]) by {
        assert(s[i] == m[i - a]);
    }
    if t.len() > 0 {
        assert(t[0] == m[0]);
    }
    a
}

/// What is taken off the start of a text.
proof fn lemma_trim_start_any(s: Seq<char>, set: Seq<char>) -> (a: int)
    ensures
        0 <= a <= s.len(),
        trim_start_any(s, set) == s.skip(a),
        forall|i: int| 0 <= i < a ==> set.contains(#[trigger] s[i]),
        a < s.len() ==> !set.contains(s[a]),
    decreases s.len(),
{
    if s.len() > 0 && set.contains(s[0]) {
        let t = s.drop_first();
        let b = lemma_trim_start_any(t, set);
        assert(trim_start_any(s, set) =~= s.skip(b + 1));
        assert forall|i: int| 0 <= i < b + 1 implies set.contains(#[trigger] s[i]) by {
            if i > 0 {
                assert(s[i] == t[i - 1]);
            }
        }
        if b + 1 < s.len() {
            assert(s[b + 1] == t[b]);
        }
        b + 1
    } else {
        assert(s.skip(0) =~= s);
        0
    }
}

/// What is taken off the end of a text.
proof fn lemma_trim_end_any(s: Seq<char>, set: Seq<char>)
    ensures
        trim_end_any(s, set).len() <= s.len(),
        trim_end_any(s, set) == s.take(trim_end_any(s, set).len() as int),
        forall|i: int|
            trim_end_any(s, set).len() <= i < s.len() ==> set.contains(#[trigger] s[i]),
        trim_end_any(s, set).len() > 0 ==> !set.contains(trim_end_any(s, set).last()),
    decreases s.len(),
{
    if s.len() > 0 && set.contains(s.last()) {
        let t = s.drop_last();
        lemma_trim_end_any(t, set);
        assert(trim_end_any(s, set) =~= s.take(trim_end_any(s, set).len() as int));
        assert forall|i: int| trim_end_any(s, set).len() <= i < s.len() implies set.contains(
            #[trigger] s[i],
        ) by {
            if i < t.len() {
                assert(s[i] == t[i]);
            }
        }
    } else {
        assert(s.take(s.len() as int) =~= s);
    }
}

/// The capital letters of ASCII have their small letters, and every other character of it
/// is its own.
pub proof fn capital_letters_have_small_ones(c: char, i: int)
    requires
        0 <= i < 26,
    ensures
        ascii_lower("ABCDEFGHIJKLMNOPQRSTUVWXYZ"@[i]) == "abcdefghijklmnopqrstuvwxyz"@[i],
        !"ABCDEFGHIJKLMNOPQRSTUVWXYZ"@.contains(c) ==> ascii_lower(c) == c,
        is_ascii(seq![c]) <==> c as u32 <= 127,
{
    reveal_strlit("ABCDEFGHIJKLMNOPQRSTUVWXYZ");
    reveal_strlit("abcdefghijklmnopqrstuvwxyz");
    if 65 <= c as u32 <= 90 {
        assert("ABCDEFGHIJKLMNOPQRSTUVWXYZ"@[c as u32 - 65] == c);
    }
    assert(seq![c][0] == c);
}

} // verus!

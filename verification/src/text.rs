//! Character-level text primitives shared by every module: conversion
//! between `str` and character vectors, whitespace, trimming and splitting,
//! each specified over `Seq<char>`.

use vstd::prelude::*;

verus! {

broadcast use vstd::string::group_string_axioms;

/// Appends one character to a `String` (std's `String::push`).
/// Trusted: the new contents are the old contents followed by `c`.
#[verifier::external_body]
pub(crate) fn push_char(s: &mut String, c: char)
    ensures
        final(s)@ == old(s)@.push(c),
{
    s.push(c)
}

/// The characters of `s`, in order.
pub fn chars_of(s: &str) -> (v: Vec<char>)
    ensures
        v@ == s@,
{
    let mut v: Vec<char> = Vec::new();
    for c in it: s.chars()
        invariant
            v@ == it.seq().take(it.index()),
            it.seq() == s@,
    {
        v.push(c);
    }
    v
}

/// A `String` holding exactly the characters `cs`.
pub fn string_of(cs: &[char]) -> (s: String)
    ensures
        s@ == cs@,
{
    let mut s = String::new();
    let mut i: usize = 0;
    while i < cs.len()
        invariant
            i <= cs@.len(),
            s@ == cs@.take(i as int),
        decreases cs@.len() - i,
    {
        push_char(&mut s, cs[i]);
        assert(cs@.take(i + 1) == cs@.take(i as int).push(cs@[i as int]));
        i = i + 1;
    }
    assert(cs@.take(cs@.len() as int) == cs@);
    s
}

/// `char::is_whitespace`: the Unicode `White_Space` property, which is this
/// fixed list of code points.
pub open spec fn is_ws(c: char) -> bool {
    let u = c as u32;
    ||| 0x9 <= u <= 0xD
    ||| u == 0x20
    ||| u == 0x85
    ||| u == 0xA0
    ||| u == 0x1680
    ||| 0x2000 <= u <= 0x200A
    ||| u == 0x2028
    ||| u == 0x2029
    ||| u == 0x202F
    ||| u == 0x205F
    ||| u == 0x3000
}

/// Executable form of [`is_ws`].
pub fn is_whitespace(c: char) -> (b: bool)
    ensures
        b == is_ws(c),
{
    let u = c as u32;
    (0x9 <= u && u <= 0xD) || u == 0x20 || u == 0x85 || u == 0xA0 || u == 0x1680 || (0x2000
        <= u && u <= 0x200A) || u == 0x2028 || u == 0x2029 || u == 0x202F || u == 0x205F || u
        == 0x3000
}

/// `s` without its leading whitespace (`str::trim_start`).
pub open spec fn trim_start(s: Seq<char>) -> Seq<char>
    decreases s.len(),
{
    if s.len() > 0 && is_ws(s[0]) {
        trim_start(s.drop_first())
    } else {
        s
    }
}

/// `s` without its trailing whitespace (`str::trim_end`).
pub open spec fn trim_end(s: Seq<char>) -> Seq<char>
    decreases s.len(),
{
    if s.len() > 0 && is_ws(s.last()) {
        trim_end(s.drop_last())
    } else {
        s
    }
}

/// `s` without leading and trailing whitespace (`str::trim`).
pub open spec fn trim(s: Seq<char>) -> Seq<char> {
    trim_end(trim_start(s))
}

/// A copy of `v[lo..hi]`.
pub fn copy_range<T: Copy>(v: &[T], lo: usize, hi: usize) -> (r: Vec<T>)
    requires
        lo <= hi <= v@.len(),
    ensures
        r@ == v@.subrange(lo as int, hi as int),
{
    let mut r: Vec<T> = Vec::new();
    let mut i = lo;
    while i < hi
        invariant
            lo <= i <= hi <= v@.len(),
            r@ == v@.subrange(lo as int, i as int),
        decreases hi - i,
    {
        r.push(v[i]);
        assert(v@.subrange(lo as int, i + 1) == v@.subrange(lo as int, i as int).push(v@[i as int]));
        i = i + 1;
    }
    r
}

/// Index of the first non-whitespace character of `s` (or its length).
pub fn trim_start_index(s: &[char]) -> (i: usize)
    ensures
        i <= s@.len(),
        trim_start(s@) == s@.subrange(i as int, s@.len() as int),
{
    let mut i: usize = 0;
    assert(s@.subrange(0, s@.len() as int) == s@);
    while i < s.len() && is_whitespace(s[i])
        invariant
            i <= s@.len(),
            trim_start(s@) == trim_start(s@.subrange(i as int, s@.len() as int)),
        decreases s@.len() - i,
    {
        assert(s@.subrange(i as int, s@.len() as int).drop_first() == s@.subrange(
            i + 1,
            s@.len() as int,
        ));
        i = i + 1;
    }
    i
}

/// One past the index of the last non-whitespace character of `s[lo..hi]`
/// (or `lo` when that range is all whitespace).
pub fn trim_end_index(s: &[char], lo: usize, hi: usize) -> (j: usize)
    requires
        lo <= hi <= s@.len(),
    ensures
        lo <= j <= hi,
        trim_end(s@.subrange(lo as int, hi as int)) == s@.subrange(lo as int, j as int),
{
    let mut j: usize = hi;
    while j > lo && is_whitespace(s[j - 1])
        invariant
            lo <= j <= hi <= s@.len(),
            trim_end(s@.subrange(lo as int, hi as int)) == trim_end(
                s@.subrange(lo as int, j as int),
            ),
        decreases j,
    {
        assert(s@.subrange(lo as int, j as int).drop_last() == s@.subrange(lo as int, j - 1));
        j = j - 1;
    }
    j
}

/// Bounds `(lo, hi)` such that `s[lo..hi]` is `trim(s)`.
pub fn trim_bounds(s: &[char]) -> (r: (usize, usize))
    ensures
        r.0 <= r.1 <= s@.len(),
        trim(s@) == s@.subrange(r.0 as int, r.1 as int),
{
    let lo = trim_start_index(s);
    let hi = trim_end_index(s, lo, s.len());
    (lo, hi)
}

/// `trim(s)` as a new vector.
pub fn trim_chars(s: &[char]) -> (r: Vec<char>)
    ensures
        r@ == trim(s@),
{
    let (lo, hi) = trim_bounds(s);
    copy_range(s, lo, hi)
}

/// The views of a vector of character vectors.
pub open spec fn views(v: Seq<Vec<char>>) -> Seq<Seq<char>> {
    Seq::new(v.len(), |i: int| v[i]@)
}

/// The pieces of `s` between characters for which `sep` holds
/// (`str::split` with a character predicate): one more piece than there are
/// separators, empty pieces included.
pub open spec fn split_by(s: Seq<char>, sep: spec_fn(char) -> bool) -> Seq<Seq<char>>
    decreases s.len(),
{
    if s.len() == 0 {
        seq![Seq::empty()]
    } else {
        let prev = split_by(s.drop_last(), sep);
        if sep(s.last()) {
            prev.push(Seq::empty())
        } else {
            prev.update(prev.len() - 1, prev.last().push(s.last()))
        }
    }
}

/// The separator predicate "is one of `seps`".
pub open spec fn one_of(seps: Seq<char>) -> spec_fn(char) -> bool {
    |c: char| seps.contains(c)
}

/// The separator predicate "is whitespace".
pub open spec fn ws_pred() -> spec_fn(char) -> bool {
    |c: char| is_ws(c)
}

/// `str::split` on a set of separator characters.
pub open spec fn split_set(s: Seq<char>, seps: Seq<char>) -> Seq<Seq<char>> {
    split_by(s, one_of(seps))
}

pub proof fn lemma_split_by_len(s: Seq<char>, sep: spec_fn(char) -> bool)
    ensures
        split_by(s, sep).len() >= 1,
    decreases s.len(),
{
    if s.len() > 0 {
        lemma_split_by_len(s.drop_last(), sep);
    }
}

/// Lemma: text without separators is one piece.
pub proof fn lemma_split_by_plain(w: Seq<char>, sep: spec_fn(char) -> bool)
    requires
        forall|i: int| 0 <= i < w.len() ==> !sep(#[trigger] w[i]),
    ensures
        split_by(w, sep) == seq![w],
    decreases w.len(),
{
    if w.len() > 0 {
        lemma_split_by_plain(w.drop_last(), sep);
        assert(w.drop_last().push(w.last()) =~= w);
    } else {
        assert(w =~= Seq::<char>::empty());
        assert(split_by(w, sep) =~= seq![w]);
    }
}

/// Lemma: after a separator, the pieces of what follows are pieces of the
/// whole.
pub proof fn lemma_split_by_after(a: Seq<char>, b: Seq<char>, sep: spec_fn(char) -> bool)
    requires
        a.len() > 0,
        sep(a.last()),
    ensures
        split_by(a + b, sep) == split_by(a, sep).drop_last() + split_by(b, sep),
    decreases b.len(),
{
    lemma_split_by_len(a, sep);
    if b.len() == 0 {
        assert(a + b =~= a);
        assert(split_by(a.drop_last(), sep).push(Seq::empty()) == split_by(a, sep));
        assert(split_by(a, sep).drop_last() + split_by(b, sep) =~= split_by(a, sep));
    } else {
        lemma_split_by_after(a, b.drop_last(), sep);
        lemma_split_by_len(b.drop_last(), sep);
        assert((a + b).drop_last() =~= a + b.drop_last());
        assert((a + b).last() == b.last());
        let p = split_by(a, sep).drop_last();
        let q = split_by(b.drop_last(), sep);
        if sep(b.last()) {
            assert((p + q).push(Seq::empty()) =~= p + q.push(Seq::empty()));
        } else {
            assert((p + q).update((p + q).len() - 1, (p + q).last().push(b.last())) =~= p + q.update(
                q.len() - 1,
                q.last().push(b.last()),
            ));
        }
    }
}

/// The non-empty members of `ss`, in order.
pub open spec fn non_empty(ss: Seq<Seq<char>>) -> Seq<Seq<char>>
    decreases ss.len(),
{
    if ss.len() == 0 {
        ss
    } else if ss.last().len() == 0 {
        non_empty(ss.drop_last())
    } else {
        non_empty(ss.drop_last()).push(ss.last())
    }
}

/// `str::split_whitespace`: the maximal runs of non-whitespace characters.
pub open spec fn words(s: Seq<char>) -> Seq<Seq<char>> {
    non_empty(split_by(s, ws_pred()))
}

/// `ss` joined with `sep` between consecutive members (`[..].join(sep)`).
pub open spec fn join(ss: Seq<Seq<char>>, sep: Seq<char>) -> Seq<char>
    decreases ss.len(),
{
    if ss.len() == 0 {
        Seq::empty()
    } else if ss.len() == 1 {
        ss[0]
    } else {
        join(ss.drop_last(), sep) + sep + ss.last()
    }
}

/// Whether `c` is a member of `set`.
pub fn contains_char(set: &[char], c: char) -> (b: bool)
    ensures
        b == set@.contains(c),
{
    let mut i: usize = 0;
    while i < set.len()
        invariant
            i <= set@.len(),
            forall|k: int| 0 <= k < i ==> set@[k] != c,
        decreases set@.len() - i,
    {
        if set[i] == c {
            assert(set@[i as int] == c);
            return true;
        }
        i = i + 1;
    }
    false
}

/// `split_set(s, seps)`.
pub fn split_on(s: &[char], seps: &[char]) -> (r: Vec<Vec<char>>)
    ensures
        views(r@) == split_set(s@, seps@),
{
    let mut done: Vec<Vec<char>> = Vec::new();
    let mut cur: Vec<char> = Vec::new();
    let mut i: usize = 0;
    assert(s@.take(0) =~= Seq::<char>::empty());
    assert(views(done@).push(cur@) =~= seq![Seq::<char>::empty()]);
    while i < s.len()
        invariant
            i <= s@.len(),
            views(done@).push(cur@) == split_set(s@.take(i as int), seps@),
        decreases s@.len() - i,
    {
        let c = s[i];
        let ghost prev_done = views(done@);
        let ghost prev_cur = cur@;
        assert(s@.take(i + 1).drop_last() =~= s@.take(i as int));
        assert(s@.take(i + 1).last() == c);
        if contains_char(seps, c) {
            done.push(cur);
            cur = Vec::new();
            assert(views(done@) =~= prev_done.push(prev_cur));
            assert(views(done@).push(cur@) =~= prev_done.push(prev_cur).push(Seq::empty()));
        } else {
            cur.push(c);
            assert(views(done@).push(cur@) =~= prev_done.push(prev_cur).update(
                prev_done.len() as int,
                prev_cur.push(c),
            ));
        }
        i = i + 1;
    }
    assert(s@.take(s@.len() as int) =~= s@);
    let ghost prev_done = views(done@);
    let ghost last = cur@;
    done.push(cur);
    assert(views(done@) =~= prev_done.push(last));
    done
}

/// `split_by(s, ws_pred())`.
pub fn split_on_ws(s: &[char]) -> (r: Vec<Vec<char>>)
    ensures
        views(r@) == split_by(s@, ws_pred()),
{
    let mut done: Vec<Vec<char>> = Vec::new();
    let mut cur: Vec<char> = Vec::new();
    let mut i: usize = 0;
    assert(s@.take(0) =~= Seq::<char>::empty());
    assert(views(done@).push(cur@) =~= seq![Seq::<char>::empty()]);
    while i < s.len()
        invariant
            i <= s@.len(),
            views(done@).push(cur@) == split_by(s@.take(i as int), ws_pred()),
        decreases s@.len() - i,
    {
        let c = s[i];
        let ghost prev_done = views(done@);
        let ghost prev_cur = cur@;
        assert(s@.take(i + 1).drop_last() =~= s@.take(i as int));
        assert(s@.take(i + 1).last() == c);
        if is_whitespace(c) {
            done.push(cur);
            cur = Vec::new();
            assert(views(done@) =~= prev_done.push(prev_cur));
            assert(views(done@).push(cur@) =~= prev_done.push(prev_cur).push(Seq::empty()));
        } else {
            cur.push(c);
            assert(views(done@).push(cur@) =~= prev_done.push(prev_cur).update(
                prev_done.len() as int,
                prev_cur.push(c),
            ));
        }
        i = i + 1;
    }
    assert(s@.take(s@.len() as int) =~= s@);
    let ghost prev_done = views(done@);
    let ghost last = cur@;
    done.push(cur);
    assert(views(done@) =~= prev_done.push(last));
    done
}

/// The non-empty members of `v`.
pub fn keep_non_empty(v: Vec<Vec<char>>) -> (r: Vec<Vec<char>>)
    ensures
        views(r@) == non_empty(views(v@)),
{
    let mut r: Vec<Vec<char>> = Vec::new();
    let mut i: usize = 0;
    let ghost vv = views(v@);
    assert(vv.take(0) =~= Seq::<Seq<char>>::empty());
    while i < v.len()
        invariant
            i <= v@.len(),
            vv == views(v@),
            views(r@) == non_empty(vv.take(i as int)),
        decreases v@.len() - i,
    {
        assert(vv.take(i + 1).drop_last() =~= vv.take(i as int));
        assert(vv.take(i + 1).last() == v@[i as int]@);
        if v[i].len() > 0 {
            let ghost before = views(r@);
            r.push(copy_range(v[i].as_slice(), 0, v[i].len()));
            assert(v@[i as int]@.subrange(0, v@[i as int]@.len() as int) =~= v@[i as int]@);
            assert(views(r@) =~= before.push(v@[i as int]@));
        }
        i = i + 1;
    }
    assert(vv.take(v@.len() as int) =~= vv);
    r
}

/// `words(s)`: the whitespace-separated words of `s`.
pub fn split_whitespace(s: &[char]) -> (r: Vec<Vec<char>>)
    ensures
        views(r@) == words(s@),
{
    keep_non_empty(split_on_ws(s))
}

/// `join(parts, sep)`.
pub fn join_chars(parts: &Vec<Vec<char>>, sep: &[char]) -> (r: Vec<char>)
    ensures
        r@ == join(views(parts@), sep@),
{
    let mut r: Vec<char> = Vec::new();
    let mut i: usize = 0;
    let ghost pv = views(parts@);
    assert(pv.take(0) =~= Seq::<Seq<char>>::empty());
    while i < parts.len()
        invariant
            i <= parts@.len(),
            pv == views(parts@),
            r@ == join(pv.take(i as int), sep@),
        decreases parts@.len() - i,
    {
        assert(pv.take(i + 1).drop_last() =~= pv.take(i as int));
        let ghost before = r@;
        if i > 0 {
            append_chars(&mut r, sep);
        }
        append_chars(&mut r, parts[i].as_slice());
        if i == 0 {
            assert(r@ =~= pv.take(1)[0]);
        } else {
            assert(r@ =~= before + sep@ + pv.take(i + 1).last());
        }
        i = i + 1;
    }
    assert(pv.take(parts@.len() as int) =~= pv);
    r
}

/// Appends `tail` to `v`.
pub fn append_chars(v: &mut Vec<char>, tail: &[char])
    ensures
        final(v)@ == old(v)@ + tail@,
{
    let mut i: usize = 0;
    let ghost start = v@;
    while i < tail.len()
        invariant
            i <= tail@.len(),
            v@ == start + tail@.take(i as int),
        decreases tail@.len() - i,
    {
        v.push(tail[i]);
        assert(tail@.take(i + 1) =~= tail@.take(i as int).push(tail@[i as int]));
        i = i + 1;
    }
    assert(tail@.take(tail@.len() as int) =~= tail@);
}

/// Whitespace-normalized text: the words of `s` joined by single spaces.
pub open spec fn space_normalized(s: Seq<char>) -> Seq<char> {
    join(words(s), seq![' '])
}

/// `space_normalized(s)`.
pub fn normalize_space_chars(s: &[char]) -> (r: Vec<char>)
    ensures
        r@ == space_normalized(s@),
{
    let ws = split_whitespace(s);
    let sp = vec![' '];
    assert(sp@ =~= seq![' ']);
    join_chars(&ws, sp.as_slice())
}

/// `s` without one trailing carriage return.
pub open spec fn strip_cr(s: Seq<char>) -> Seq<char> {
    if s.len() > 0 && s.last() == '\r' {
        s.drop_last()
    } else {
        s
    }
}

/// `str::lines`: the pieces between `'\n'` characters, each without a
/// trailing `'\r'` when a `'\n'` ended it; an empty final piece is dropped.
pub open spec fn lines(s: Seq<char>) -> Seq<Seq<char>> {
    let parts = split_set(s, seq!['\n']);
    let head = Seq::new((parts.len() - 1) as nat, |i: int| strip_cr(parts[i]));
    if parts.last().len() > 0 {
        head.push(parts.last())
    } else {
        head
    }
}

/// `lines(s)`.
pub fn lines_of(s: &[char]) -> (r: Vec<Vec<char>>)
    ensures
        views(r@) == lines(s@),
{
    let nl = vec!['\n'];
    assert(nl@ =~= seq!['\n']);
    let parts = split_on(s, nl.as_slice());
    proof {
        lemma_split_by_len(s@, one_of(seq!['\n']));
    }
    let ghost pv = views(parts@);
    let n = parts.len();
    let mut r: Vec<Vec<char>> = Vec::new();
    let mut i: usize = 0;
    while i + 1 < n
        invariant
            n == parts@.len(),
            n >= 1,
            i < n,
            pv == views(parts@),
            views(r@) == Seq::new(i as nat, |k: int| strip_cr(pv[k])),
        decreases n - i,
    {
        let p = &parts[i];
        let len = p.len();
        let piece = if len > 0 && p[len - 1] == '\r' {
            copy_range(p.as_slice(), 0, len - 1)
        } else {
            copy_range(p.as_slice(), 0, len)
        };
        proof {
            assert(pv[i as int] == p@);
            if len > 0 && p@[len - 1] == '\r' {
                assert(p@.subrange(0, len - 1) =~= p@.drop_last());
            } else {
                assert(p@.subrange(0, len as int) =~= p@);
            }
        }
        let ghost before = views(r@);
        r.push(piece);
        assert(views(r@) =~= before.push(strip_cr(pv[i as int])));
        assert(Seq::new((i + 1) as nat, |k: int| strip_cr(pv[k])) =~= Seq::new(
            i as nat,
            |k: int| strip_cr(pv[k]),
        ).push(strip_cr(pv[i as int])));
        i = i + 1;
    }
    assert(views(r@) =~= Seq::new((pv.len() - 1) as nat, |k: int| strip_cr(pv[k])));
    let last = &parts[n - 1];
    if last.len() > 0 {
        let ghost before = views(r@);
        r.push(copy_range(last.as_slice(), 0, last.len()));
        assert(last@.subrange(0, last@.len() as int) =~= last@);
        assert(views(r@) =~= before.push(pv.last()));
    }
    r
}

/// Whether `s[i..i + p.len()]` is `p`.
pub open spec fn matches_at(s: Seq<char>, p: Seq<char>, i: int) -> bool {
    0 <= i && i + p.len() <= s.len() && s.subrange(i, i + p.len()) == p
}

/// The first index at or after `i` where `p` occurs in `s`.
pub open spec fn find_from(s: Seq<char>, p: Seq<char>, i: nat) -> Option<nat>
    decreases s.len() + 1 - i,
{
    if i > s.len() || i + p.len() > s.len() {
        None
    } else if matches_at(s, p, i as int) {
        Some(i)
    } else {
        find_from(s, p, i + 1)
    }
}

/// `str::find` (as a character index).
pub open spec fn find(s: Seq<char>, p: Seq<char>) -> Option<nat> {
    find_from(s, p, 0)
}

/// `str::contains`.
pub open spec fn contains(s: Seq<char>, p: Seq<char>) -> bool {
    find(s, p) is Some
}

/// `str::starts_with`.
pub open spec fn has_prefix(s: Seq<char>, p: Seq<char>) -> bool {
    p.len() <= s.len() && s.subrange(0, p.len() as int) == p
}

/// `str::ends_with`.
pub open spec fn has_suffix(s: Seq<char>, p: Seq<char>) -> bool {
    p.len() <= s.len() && s.subrange(s.len() - p.len(), s.len() as int) == p
}

/// Whether `s[i..]` starts with `p`.
pub fn matches_at_exec(s: &[char], p: &[char], i: usize) -> (b: bool)
    ensures
        b == matches_at(s@, p@, i as int),
{
    if i > s.len() || p.len() > s.len() - i {
        return false;
    }
    let mut k: usize = 0;
    while k < p.len()
        invariant
            i + p@.len() <= s@.len(),
            s@.len() == s.len(),
            k <= p@.len(),
            forall|j: int| 0 <= j < k ==> s@[i + j] == p@[j],
        decreases p@.len() - k,
    {
        assert(i + k < s.len());
        if s[i + k] != p[k] {
            assert(s@.subrange(i as int, i + p@.len())[k as int] != p@[k as int]);
            return false;
        }
        k = k + 1;
    }
    assert(s@.subrange(i as int, i + p@.len()) =~= p@);
    true
}

/// `find_from(s, p, from)`.
pub fn find_chars(s: &[char], p: &[char], from: usize) -> (r: Option<usize>)
    ensures
        match r {
            Some(k) => find_from(s@, p@, from as nat) == Some(k as nat),
            None => find_from(s@, p@, from as nat) is None,
        },
{
    if p.len() == 0 {
        if from <= s.len() {
            assert(s@.subrange(from as int, from as int) =~= p@);
            return Some(from);
        }
        return None;
    }
    let mut i = from;
    while i < s.len() && p.len() <= s.len() - i
        invariant
            from <= i,
            find_from(s@, p@, from as nat) == find_from(s@, p@, i as nat),
        decreases s@.len() - i,
    {
        if matches_at_exec(s, p, i) {
            return Some(i);
        }
        i = i + 1;
    }
    None
}

/// `has_prefix(s, p)`.
pub fn starts_with(s: &[char], p: &[char]) -> (b: bool)
    ensures
        b == has_prefix(s@, p@),
{
    matches_at_exec(s, p, 0)
}

/// `has_suffix(s, p)`.
pub fn ends_with(s: &[char], p: &[char]) -> (b: bool)
    ensures
        b == has_suffix(s@, p@),
{
    if p.len() > s.len() {
        return false;
    }
    matches_at_exec(s, p, s.len() - p.len())
}

/// Whether `a` and `b` hold the same characters.
pub fn chars_eq(a: &[char], b: &[char]) -> (r: bool)
    ensures
        r == (a@ == b@),
{
    if a.len() != b.len() {
        return false;
    }
    let r = matches_at_exec(a, b, 0);
    assert(a@.subrange(0, b@.len() as int) =~= a@);
    r
}

/// Whether `a` holds the characters of `lit`.
pub fn eq_lit(a: &[char], lit: &str) -> (r: bool)
    ensures
        r == (a@ == lit@),
{
    let l = chars_of(lit);
    chars_eq(a, l.as_slice())
}

/// Whether `s` starts with the characters of `lit`.
pub fn starts_with_lit(s: &[char], lit: &str) -> (b: bool)
    ensures
        b == has_prefix(s@, lit@),
{
    let l = chars_of(lit);
    starts_with(s, l.as_slice())
}

/// Whether `s` ends with the characters of `lit`.
pub fn ends_with_lit(s: &[char], lit: &str) -> (b: bool)
    ensures
        b == has_suffix(s@, lit@),
{
    let l = chars_of(lit);
    ends_with(s, l.as_slice())
}

/// `char::to_ascii_lowercase`.
pub open spec fn ascii_lower(c: char) -> char {
    if 'A' <= c <= 'Z' {
        ((c as u32) + 32) as char
    } else {
        c
    }
}

/// Executable `ascii_lower`.
pub fn to_ascii_lower(c: char) -> (r: char)
    ensures
        r == ascii_lower(c),
{
    if 'A' <= c && c <= 'Z' {
        ((c as u8) + 32) as char
    } else {
        c
    }
}

/// `str::eq_ignore_ascii_case`.
pub open spec fn eq_ignore_ascii_case(a: Seq<char>, b: Seq<char>) -> bool {
    a.len() == b.len() && forall|i: int| 0 <= i < a.len() ==> ascii_lower(a[i]) == ascii_lower(b[i])
}

/// Executable `eq_ignore_ascii_case`.
pub fn eq_ignore_ascii_case_exec(a: &[char], b: &[char]) -> (r: bool)
    ensures
        r == eq_ignore_ascii_case(a@, b@),
{
    if a.len() != b.len() {
        return false;
    }
    let mut i: usize = 0;
    while i < a.len()
        invariant
            a@.len() == b@.len(),
            i <= a@.len(),
            forall|k: int| 0 <= k < i ==> ascii_lower(a@[k]) == ascii_lower(b@[k]),
        decreases a@.len() - i,
    {
        if to_ascii_lower(a[i]) != to_ascii_lower(b[i]) {
            return false;
        }
        i = i + 1;
    }
    true
}

/// The result of std's `str::to_lowercase` on a string whose characters are
/// `s` (Unicode case mapping, including its context-dependent rules).
pub uninterp spec fn lowercase(s: Seq<char>) -> Seq<char>;

/// `str::to_lowercase`. Trusted: the result is `lowercase` of the input; the
/// Unicode mapping itself is not written out.
#[verifier::external_body]
pub(crate) fn to_lowercase_chars(s: &[char]) -> (r: Vec<char>)
    ensures
        r@ == lowercase(s@),
{
    let text: String = s.iter().collect();
    text.to_lowercase().chars().collect()
}

/// The characters yielded by std's `char::to_uppercase` for `c`.
pub uninterp spec fn char_uppercase(c: char) -> Seq<char>;

/// `char::to_uppercase`. Trusted: the result is `char_uppercase(c)`.
#[verifier::external_body]
pub(crate) fn to_uppercase_char(c: char) -> (r: Vec<char>)
    ensures
        r@ == char_uppercase(c),
{
    c.to_uppercase().collect()
}

/// Whether std's `char::is_alphanumeric` holds for `c` (Unicode
/// `Alphabetic` or `Numeric`).
pub uninterp spec fn char_alphanumeric(c: char) -> bool;

/// `char::is_alphanumeric`. Trusted: the result is `char_alphanumeric(c)`.
#[verifier::external_body]
pub(crate) fn is_alphanumeric(c: char) -> (r: bool)
    ensures
        r == char_alphanumeric(c),
{
    c.is_alphanumeric()
}

/// Whether std's `char::is_alphabetic` holds for `c` (Unicode `Alphabetic`).
pub uninterp spec fn char_alphabetic(c: char) -> bool;

/// `char::is_alphabetic`. Trusted: the result is `char_alphabetic(c)`.
#[verifier::external_body]
pub(crate) fn is_alphabetic(c: char) -> (r: bool)
    ensures
        r == char_alphabetic(c),
{
    c.is_alphabetic()
}

/// `char::is_ascii_digit`.
pub open spec fn is_ascii_digit(c: char) -> bool {
    '0' <= c <= '9'
}

/// `char::is_ascii_uppercase`.
pub open spec fn is_ascii_upper(c: char) -> bool {
    'A' <= c <= 'Z'
}

/// `char::is_ascii_lowercase`.
pub open spec fn is_ascii_lower(c: char) -> bool {
    'a' <= c <= 'z'
}

/// `char::is_ascii_alphabetic`.
pub open spec fn is_ascii_alpha(c: char) -> bool {
    is_ascii_upper(c) || is_ascii_lower(c)
}

/// `char::is_ascii_punctuation`.
pub open spec fn is_ascii_punct(c: char) -> bool {
    ('!' <= c <= '/') || (':' <= c <= '@') || ('[' <= c <= '`') || ('{' <= c <= '~')
}

/// Executable `is_ascii_punct`.
pub fn is_ascii_punctuation(c: char) -> (b: bool)
    ensures
        b == is_ascii_punct(c),
{
    ('!' <= c && c <= '/') || (':' <= c && c <= '@') || ('[' <= c && c <= '`') || ('{' <= c
        && c <= '~')
}

/// Index of the last occurrence of `c` in `s`.
pub open spec fn rfind_char(s: Seq<char>, c: char) -> Option<nat>
    decreases s.len(),
{
    if s.len() == 0 {
        None
    } else if s.last() == c {
        Some((s.len() - 1) as nat)
    } else {
        rfind_char(s.drop_last(), c)
    }
}

/// `rfind_char(s[..hi], c)`.
pub fn rfind_char_exec(s: &[char], hi: usize, c: char) -> (r: Option<usize>)
    requires
        hi <= s@.len(),
    ensures
        match r {
            Some(k) => rfind_char(s@.subrange(0, hi as int), c) == Some(k as nat),
            None => rfind_char(s@.subrange(0, hi as int), c) is None,
        },
{
    let mut j = hi;
    while j > 0
        invariant
            j <= hi <= s@.len(),
            rfind_char(s@.subrange(0, hi as int), c) == rfind_char(s@.subrange(0, j as int), c),
        decreases j,
    {
        assert(s@.subrange(0, j as int).drop_last() =~= s@.subrange(0, j - 1));
        if s[j - 1] == c {
            return Some(j - 1);
        }
        j = j - 1;
    }
    None
}

/// Lemma: trimming the start never lengthens.
pub proof fn lemma_trim_start_len(s: Seq<char>)
    ensures
        trim_start(s).len() <= s.len(),
    decreases s.len(),
{
    if s.len() > 0 {
        lemma_trim_start_len(s.drop_first());
    }
}

/// Lemma: trimming the end never lengthens.
pub proof fn lemma_trim_end_len(s: Seq<char>)
    ensures
        trim_end(s).len() <= s.len(),
    decreases s.len(),
{
    if s.len() > 0 {
        lemma_trim_end_len(s.drop_last());
    }
}

/// Lemma: trimming never lengthens.
pub proof fn lemma_trim_len(s: Seq<char>)
    ensures
        trim(s).len() <= s.len(),
{
    lemma_trim_start_len(s);
    lemma_trim_end_len(trim_start(s));
}

/// A new vector with the characters of `lit`.
pub fn lit_chars(lit: &str) -> (r: Vec<char>)
    ensures
        r@ == lit@,
{
    chars_of(lit)
}

/// Lemma: a found index lies inside `s` and is a match.
pub proof fn lemma_find_from_bounds(s: Seq<char>, p: Seq<char>, i: nat)
    ensures
        match find_from(s, p, i) {
            Some(k) => i <= k && k + p.len() <= s.len() && matches_at(s, p, k as int),
            None => true,
        },
    decreases s.len() + 1 - i,
{
    if i > s.len() || i + p.len() > s.len() {
    } else if matches_at(s, p, i as int) {
    } else {
        lemma_find_from_bounds(s, p, i + 1);
    }
}

/// `s` without leading characters satisfying `p` (`trim_start_matches`).
pub open spec fn trim_start_by(s: Seq<char>, p: spec_fn(char) -> bool) -> Seq<char>
    decreases s.len(),
{
    if s.len() > 0 && p(s[0]) {
        trim_start_by(s.drop_first(), p)
    } else {
        s
    }
}

/// `s` without trailing characters satisfying `p` (`trim_end_matches`).
pub open spec fn trim_end_by(s: Seq<char>, p: spec_fn(char) -> bool) -> Seq<char>
    decreases s.len(),
{
    if s.len() > 0 && p(s.last()) {
        trim_end_by(s.drop_last(), p)
    } else {
        s
    }
}

/// `str::trim_matches` with a character predicate.
pub open spec fn trim_by(s: Seq<char>, p: spec_fn(char) -> bool) -> Seq<char> {
    trim_end_by(trim_start_by(s, p), p)
}

/// The characters of an optional character vector.
pub open spec fn opt_seq(o: Option<Vec<char>>) -> Option<Seq<char>> {
    match o {
        Some(v) => Some(v@),
        None => None,
    }
}

/// The characters of an optional string.
pub open spec fn opt_string(o: Option<String>) -> Option<Seq<char>> {
    match o {
        Some(v) => Some(v@),
        None => None,
    }
}

/// `Some(len(lit))` when `s` starts with `lit`, else `None`.
pub fn prefix_len_if(s: &[char], lit: &str) -> (r: Option<usize>)
    ensures
        has_prefix(s@, lit@) ==> r is Some && r->0 as nat == lit@.len(),
        !has_prefix(s@, lit@) ==> r is None,
{
    let l = chars_of(lit);
    if starts_with(s, l.as_slice()) {
        Some(l.len())
    } else {
        None
    }
}

/// ASCII punctuation or whitespace.
pub open spec fn punct_or_ws() -> spec_fn(char) -> bool {
    |c: char| is_ascii_punct(c) || is_ws(c)
}

/// Bounds `(lo, hi)` with `s[lo..hi] == trim_by(s, p)` for the predicate
/// "ASCII punctuation or whitespace".
pub fn trim_punct_ws_bounds(s: &[char]) -> (r: (usize, usize))
    ensures
        r.0 <= r.1 <= s@.len(),
        trim_by(s@, punct_or_ws()) == s@.subrange(r.0 as int, r.1 as int),
{
    let ghost p = punct_or_ws();
    let mut i: usize = 0;
    assert(s@.subrange(0, s@.len() as int) == s@);
    while i < s.len() && (is_ascii_punctuation(s[i]) || is_whitespace(s[i]))
        invariant
            i <= s@.len(),
            p == punct_or_ws(),
            trim_start_by(s@, p) == trim_start_by(s@.subrange(i as int, s@.len() as int), p),
        decreases s@.len() - i,
    {
        assert(p(s@[i as int]));
        assert(s@.subrange(i as int, s@.len() as int).drop_first() == s@.subrange(
            i + 1,
            s@.len() as int,
        ));
        i = i + 1;
    }
    assert(!(i < s@.len()) || !p(s@[i as int]));
    let mut j: usize = s.len();
    while j > i && (is_ascii_punctuation(s[j - 1]) || is_whitespace(s[j - 1]))
        invariant
            i <= j <= s@.len(),
            p == punct_or_ws(),
            trim_end_by(s@.subrange(i as int, s@.len() as int), p) == trim_end_by(
                s@.subrange(i as int, j as int),
                p,
            ),
        decreases j,
    {
        assert(p(s@[j - 1]));
        assert(s@.subrange(i as int, j as int).drop_last() == s@.subrange(i as int, j - 1));
        j = j - 1;
    }
    (i, j)
}

/// `trim_by(s, one_of(set))`: `s` without leading and trailing members of
/// `set` (`str::trim_matches` with a set of characters).
pub fn trim_by_set(s: &[char], set: &[char]) -> (r: Vec<char>)
    ensures
        r@ == trim_by(s@, one_of(set@)),
{
    let ghost p = one_of(set@);
    let mut i: usize = 0;
    assert(s@.subrange(0, s@.len() as int) == s@);
    while i < s.len() && contains_char(set, s[i])
        invariant
            i <= s@.len(),
            p == one_of(set@),
            trim_start_by(s@, p) == trim_start_by(s@.subrange(i as int, s@.len() as int), p),
        decreases s@.len() - i,
    {
        assert(p(s@[i as int]));
        assert(s@.subrange(i as int, s@.len() as int).drop_first() == s@.subrange(
            i + 1,
            s@.len() as int,
        ));
        i = i + 1;
    }
    let mut j: usize = s.len();
    while j > i && contains_char(set, s[j - 1])
        invariant
            i <= j <= s@.len(),
            p == one_of(set@),
            trim_end_by(s@.subrange(i as int, s@.len() as int), p) == trim_end_by(
                s@.subrange(i as int, j as int),
                p,
            ),
        decreases j,
    {
        assert(p(s@[j - 1]));
        assert(s@.subrange(i as int, j as int).drop_last() == s@.subrange(i as int, j - 1));
        j = j - 1;
    }
    copy_range(s, i, j)
}

/// `trim_end_by(s, one_of(set))` (`str::trim_end_matches` with a set of
/// characters).
pub fn trim_end_set(s: &[char], set: &[char]) -> (r: Vec<char>)
    ensures
        r@ == trim_end_by(s@, one_of(set@)),
{
    let ghost p = one_of(set@);
    let mut j: usize = s.len();
    assert(s@.subrange(0, s@.len() as int) == s@);
    while j > 0 && contains_char(set, s[j - 1])
        invariant
            j <= s@.len(),
            p == one_of(set@),
            trim_end_by(s@, p) == trim_end_by(s@.subrange(0, j as int), p),
        decreases j,
    {
        assert(p(s@[j - 1]));
        assert(s@.subrange(0, j as int).drop_last() == s@.subrange(0, j - 1));
        j = j - 1;
    }
    copy_range(s, 0, j)
}

/// Total length of the members of `ss`.
pub open spec fn total_len(ss: Seq<Seq<char>>) -> nat
    decreases ss.len(),
{
    if ss.len() == 0 {
        0
    } else {
        total_len(ss.drop_last()) + ss.last().len()
    }
}

/// Lemma: the pieces of a split, with their separators, make up `s`.
pub proof fn lemma_split_total(s: Seq<char>, sep: spec_fn(char) -> bool)
    ensures
        split_by(s, sep).len() >= 1,
        total_len(split_by(s, sep)) + split_by(s, sep).len() == s.len() + 1,
    decreases s.len(),
{
    if s.len() == 0 {
        let base: Seq<Seq<char>> = seq![Seq::empty()];
        assert(split_by(s, sep) == base);
        assert(base.drop_last() =~= Seq::<Seq<char>>::empty());
        assert(total_len(base.drop_last()) == 0);
        assert(base.last().len() == 0);
        assert(total_len(base) == 0);
        assert(non_empty(base) == non_empty(base.drop_last()));
    }
    if s.len() > 0 {
        let prev = split_by(s.drop_last(), sep);
        lemma_split_total(s.drop_last(), sep);
        if !sep(s.last()) {
            let next = prev.update(prev.len() - 1, prev.last().push(s.last()));
            assert(split_by(s, sep) == next);
            assert(next.drop_last() =~= prev.drop_last());
            assert(next.last() == prev.last().push(s.last()));
            assert(total_len(next) == total_len(next.drop_last()) + next.last().len());
            assert(total_len(prev) == total_len(prev.drop_last()) + prev.last().len());
        } else {
            let next = prev.push(Seq::empty());
            assert(split_by(s, sep) == next);
            assert(next.drop_last() =~= prev);
            assert(total_len(next) == total_len(next.drop_last()) + next.last().len());
        }
    }
}

/// Lemma: `non_empty` of a split has at most `s.len()` members, and one
/// fewer when the last piece is empty.
pub proof fn lemma_split_words(s: Seq<char>, sep: spec_fn(char) -> bool)
    ensures
        split_by(s, sep).len() >= 1,
        non_empty(split_by(s, sep)).len() <= s.len(),
        non_empty(split_by(s, sep)).len() + (if split_by(s, sep).last().len() == 0 {
            1int
        } else {
            0int
        }) <= s.len() + 1,
    decreases s.len(),
{
    if s.len() == 0 {
        let base: Seq<Seq<char>> = seq![Seq::empty()];
        assert(split_by(s, sep) == base);
        assert(base.drop_last() =~= Seq::<Seq<char>>::empty());
        assert(total_len(base.drop_last()) == 0);
        assert(base.last().len() == 0);
        assert(total_len(base) == 0);
        assert(non_empty(base) == non_empty(base.drop_last()));
    }
    if s.len() > 0 {
        let prev = split_by(s.drop_last(), sep);
        lemma_split_words(s.drop_last(), sep);
        if sep(s.last()) {
            let next = prev.push(Seq::empty());
            assert(split_by(s, sep) == next);
            assert(next.drop_last() =~= prev);
            assert(non_empty(next) == non_empty(prev));
        } else {
            let next = prev.update(prev.len() - 1, prev.last().push(s.last()));
            assert(split_by(s, sep) == next);
            assert(next.drop_last() =~= prev.drop_last());
            assert(next.last() == prev.last().push(s.last()));
            assert(non_empty(next) == non_empty(prev.drop_last()).push(next.last()));
            if prev.last().len() == 0 {
                assert(non_empty(prev) == non_empty(prev.drop_last()));
            } else {
                assert(non_empty(prev) == non_empty(prev.drop_last()).push(prev.last()));
            }
        }
    }
}

/// Lemma: `s` has at most `s.len()` words.
pub proof fn lemma_words_len(s: Seq<char>)
    ensures
        words(s).len() <= s.len(),
{
    lemma_split_words(s, ws_pred());
}

/// Lemma: the total length of `map(f)` over a prefix is bounded when `f`
/// never lengthens.
pub proof fn lemma_total_len_take(ss: Seq<Seq<char>>, n: int)
    requires
        0 <= n <= ss.len(),
    ensures
        total_len(ss.take(n)) <= total_len(ss),
    decreases ss.len(),
{
    if n < ss.len() {
        assert(ss.drop_last().take(n) =~= ss.take(n));
        lemma_total_len_take(ss.drop_last(), n);
    } else {
        assert(ss.take(n) =~= ss);
    }
}

/// Lemma: the lines of `s` are no longer, together, than `s`.
pub proof fn lemma_lines_total(s: Seq<char>)
    ensures
        total_len(lines(s)) <= s.len(),
{
    let parts = split_set(s, seq!['\n']);
    lemma_split_total(s, one_of(seq!['\n']));
    let n = parts.len() - 1;
    let head = Seq::new(n as nat, |i: int| strip_cr(parts[i]));
    assert forall|k: int| 0 <= k <= n implies total_len(head.take(k)) <= total_len(parts.take(k))
        by {
        lemma_strip_cr_total(parts, k);
    }
    assert(head.take(n) =~= head);
    lemma_total_len_take(parts, n);
    if parts.last().len() > 0 {
        assert(head.push(parts.last()).drop_last() =~= head);
        assert(parts.take(n) =~= parts.drop_last());
    }
}

/// Lemma: stripping carriage returns from the first `k` pieces does not
/// lengthen them in total.
pub proof fn lemma_strip_cr_total(parts: Seq<Seq<char>>, k: int)
    requires
        0 <= k < parts.len(),
    ensures
        total_len(Seq::new((parts.len() - 1) as nat, |i: int| strip_cr(parts[i])).take(k))
            <= total_len(parts.take(k)),
    decreases k,
{
    let head = Seq::new((parts.len() - 1) as nat, |i: int| strip_cr(parts[i]));
    if k > 0 {
        lemma_strip_cr_total(parts, k - 1);
        assert(head.take(k).drop_last() =~= head.take(k - 1));
        assert(parts.take(k).drop_last() =~= parts.take(k - 1));
    }
}

/// The characters of each string in `v`.
pub open spec fn string_views(v: Seq<String>) -> Seq<Seq<char>> {
    Seq::new(v.len(), |i: int| v[i]@)
}

/// Strings holding the members of `v`.
pub fn strings_of(v: &Vec<Vec<char>>) -> (r: Vec<String>)
    ensures
        string_views(r@) == views(v@),
{
    let mut r: Vec<String> = Vec::new();
    let mut i: usize = 0;
    while i < v.len()
        invariant
            i <= v@.len(),
            string_views(r@) =~= views(v@).take(i as int),
        decreases v@.len() - i,
    {
        let ghost before = string_views(r@);
        r.push(string_of(v[i].as_slice()));
        assert(string_views(r@) =~= before.push(v@[i as int]@));
        assert(views(v@).take(i + 1) =~= views(v@).take(i as int).push(v@[i as int]@));
        i = i + 1;
    }
    assert(views(v@).take(v@.len() as int) =~= views(v@));
    r
}

/// Whether `x` is a member of `v`.
pub fn contains_seq(v: &Vec<Vec<char>>, x: &[char]) -> (r: bool)
    ensures
        r == views(v@).contains(x@),
{
    let mut i: usize = 0;
    while i < v.len()
        invariant
            i <= v@.len(),
            forall|k: int| 0 <= k < i ==> views(v@)[k] != x@,
        decreases v@.len() - i,
    {
        if chars_eq(v[i].as_slice(), x) {
            assert(views(v@)[i as int] == x@);
            return true;
        }
        i = i + 1;
    }
    false
}

/// Lexicographic order on character sequences by code point (the order of
/// `String`'s `Ord`).
pub open spec fn seq_lt(a: Seq<char>, b: Seq<char>) -> bool
    decreases a.len(),
{
    if a.len() == 0 {
        b.len() > 0
    } else if b.len() == 0 {
        false
    } else if a[0] < b[0] {
        true
    } else if a[0] > b[0] {
        false
    } else {
        seq_lt(a.drop_first(), b.drop_first())
    }
}

/// Executable `seq_lt`.
pub fn chars_lt(a: &[char], b: &[char]) -> (r: bool)
    ensures
        r == seq_lt(a@, b@),
{
    let mut i: usize = 0;
    assert(a@.skip(0) =~= a@);
    assert(b@.skip(0) =~= b@);
    while i < a.len() && i < b.len() && a[i] == b[i]
        invariant
            i <= a@.len(),
            i <= b@.len(),
            seq_lt(a@, b@) == seq_lt(a@.skip(i as int), b@.skip(i as int)),
        decreases a@.len() - i,
    {
        assert(a@.skip(i as int).drop_first() =~= a@.skip(i + 1));
        assert(b@.skip(i as int).drop_first() =~= b@.skip(i + 1));
        i = i + 1;
    }
    assert(a@.skip(i as int).len() == a@.len() - i);
    assert(b@.skip(i as int).len() == b@.len() - i);
    if i < a.len() && i < b.len() {
        assert(a@.skip(i as int)[0] == a@[i as int]);
        assert(b@.skip(i as int)[0] == b@[i as int]);
    }
    if i == a.len() {
        i < b.len()
    } else if i == b.len() {
        false
    } else {
        a[i] < b[i]
    }
}

/// Lemma: `seq_lt` is irreflexive.
pub proof fn lemma_seq_lt_irreflexive(a: Seq<char>)
    ensures
        !seq_lt(a, a),
    decreases a.len(),
{
    if a.len() > 0 {
        lemma_seq_lt_irreflexive(a.drop_first());
    }
}

/// Lemma: `seq_lt` is transitive.
pub proof fn lemma_seq_lt_transitive(a: Seq<char>, b: Seq<char>, c: Seq<char>)
    requires
        seq_lt(a, b),
        seq_lt(b, c),
    ensures
        seq_lt(a, c),
    decreases a.len(),
{
    if a.len() > 0 && b.len() > 0 && c.len() > 0 && a[0] == b[0] && b[0] == c[0] {
        lemma_seq_lt_transitive(a.drop_first(), b.drop_first(), c.drop_first());
    }
}

/// Lemma: distinct sequences are ordered one way or the other.
pub proof fn lemma_seq_lt_total(a: Seq<char>, b: Seq<char>)
    requires
        a != b,
    ensures
        seq_lt(a, b) || seq_lt(b, a),
    decreases a.len(),
{
    if a.len() == 0 {
        assert(b.len() > 0) by {
            if b.len() == 0 {
                assert(a =~= b);
            }
        }
    } else if b.len() > 0 && a[0] == b[0] {
        if a.drop_first() == b.drop_first() {
            assert(a =~= seq![a[0]] + a.drop_first());
            assert(b =~= seq![b[0]] + b.drop_first());
        }
        lemma_seq_lt_total(a.drop_first(), b.drop_first());
    }
}

/// Lemma: `seq_lt` is asymmetric.
pub proof fn lemma_seq_lt_asymmetric(a: Seq<char>, b: Seq<char>)
    requires
        seq_lt(a, b),
    ensures
        !seq_lt(b, a),
    decreases a.len(),
{
    if a.len() > 0 && b.len() > 0 && a[0] == b[0] {
        lemma_seq_lt_asymmetric(a.drop_first(), b.drop_first());
    }
}

/// Strictly increasing in `seq_lt` order (so without duplicates).
pub open spec fn strictly_sorted(s: Seq<Seq<char>>) -> bool {
    forall|i: int, j: int| 0 <= i < j < s.len() ==> seq_lt(s[i], s[j])
}

/// The number of bytes `c` takes in UTF-8.
pub open spec fn utf8_width(c: char) -> nat {
    if (c as u32) < 0x80 {
        1
    } else if (c as u32) < 0x800 {
        2
    } else if (c as u32) < 0x10000 {
        3
    } else {
        4
    }
}

/// The number of bytes `s` takes in UTF-8 (`str::len`).
pub open spec fn utf8_len(s: Seq<char>) -> nat
    decreases s.len(),
{
    if s.len() == 0 {
        0
    } else {
        utf8_len(s.drop_last()) + utf8_width(s.last())
    }
}

/// Whether `s` takes more than `limit` bytes in UTF-8.
pub fn utf8_longer_than(s: &[char], limit: usize) -> (r: bool)
    ensures
        r == (utf8_len(s@) > limit),
{
    let mut total: usize = 0;
    let mut i: usize = 0;
    while i < s.len()
        invariant
            i <= s@.len(),
            total == utf8_len(s@.take(i as int)),
            total <= limit,
        decreases s@.len() - i,
    {
        let c = s[i];
        let code = c as u32;
        let w: usize = if code < 0x80 {
            1
        } else if code < 0x800 {
            2
        } else if code < 0x10000 {
            3
        } else {
            4
        };
        assert(s@.take(i + 1).drop_last() =~= s@.take(i as int));
        if w > limit - total {
            proof {
                lemma_utf8_len_prefix(s@, i + 1);
            }
            return true;
        }
        total = total + w;
        i = i + 1;
    }
    assert(s@.take(i as int) =~= s@);
    false
}

/// A prefix takes no more bytes than the whole.
pub proof fn lemma_utf8_len_prefix(s: Seq<char>, i: int)
    requires
        0 <= i <= s.len(),
    ensures
        utf8_len(s.take(i)) <= utf8_len(s),
    decreases s.len(),
{
    if i < s.len() {
        assert(s.drop_last().take(i) =~= s.take(i));
        lemma_utf8_len_prefix(s.drop_last(), i);
    } else {
        assert(s.take(i) =~= s);
    }
}

/// `c`'s width in UTF-8; see `utf8_width`.
pub fn utf8_width_of(c: char) -> (r: usize)
    ensures
        r == utf8_width(c),
        1 <= r <= 4,
{
    let code = c as u32;
    if code < 0x80 {
        1
    } else if code < 0x800 {
        2
    } else if code < 0x10000 {
        3
    } else {
        4
    }
}

/// What follows the first `n` bytes of `s` in UTF-8 (`&s[n..]`), when `n`
/// falls on a character boundary of `s`; none where it does not, or lies
/// beyond the end.
pub open spec fn byte_suffix(s: Seq<char>, n: nat) -> Option<Seq<char>>
    decreases s.len(),
{
    if n == 0 {
        Some(s)
    } else if s.len() == 0 {
        None
    } else if utf8_width(s[0]) > n {
        None
    } else {
        byte_suffix(s.drop_first(), (n - utf8_width(s[0])) as nat)
    }
}

/// The position in `s` of its first `n` bytes, when `n` falls on a
/// character boundary: `byte_suffix(s, n)` is what follows it.
pub fn byte_boundary(s: &[char], n: usize) -> (r: Option<usize>)
    ensures
        match r {
            Some(k) => k <= s@.len() && byte_suffix(s@, n as nat) == Some(s@.skip(k as int)),
            None => byte_suffix(s@, n as nat) is None,
        },
{
    let mut i: usize = 0;
    let mut m: usize = n;
    assert(s@.skip(0) =~= s@);
    while m > 0 && i < s.len()
        invariant
            i <= s@.len(),
            m <= n,
            byte_suffix(s@, n as nat) == byte_suffix(s@.skip(i as int), m as nat),
        decreases s@.len() - i,
    {
        let w = utf8_width_of(s[i]);
        assert(s@.skip(i as int)[0] == s@[i as int]);
        if w > m {
            return None;
        }
        assert(s@.skip(i as int).drop_first() =~= s@.skip(i + 1));
        m = m - w;
        i = i + 1;
    }
    if m > 0 {
        assert(s@.skip(i as int).len() == 0);
        None
    } else {
        Some(i)
    }
}

} // verus!

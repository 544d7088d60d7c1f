//! Unix paths held as text: the parts of a path that name something, its
//! file name, stem and extension, and joining a relative name onto a
//! directory, each as `std::path` defines them on Unix.

use crate::text;
use vstd::prelude::*;

verus! {

/// The pieces of `ss` that name something: neither empty nor `"."`.
pub open spec fn named(ss: Seq<Seq<char>>) -> Seq<Seq<char>>
    decreases ss.len(),
{
    if ss.len() == 0 {
        ss
    } else if ss.last().len() == 0 || ss.last() == seq!['.'] {
        named(ss.drop_last())
    } else {
        named(ss.drop_last()).push(ss.last())
    }
}

/// The parts of path `p`: its `'/'`-separated pieces that are neither empty
/// nor `"."` (the `Normal` and `ParentDir` components of `Path::components`).
pub open spec fn path_parts(p: Seq<char>) -> Seq<Seq<char>> {
    named(text::split_set(p, seq!['/']))
}

/// `Path::file_name`: the last part, unless there is none or it is `".."`.
pub open spec fn file_name(p: Seq<char>) -> Option<Seq<char>> {
    let parts = path_parts(p);
    if parts.len() == 0 || parts.last() == seq!['.', '.'] {
        None
    } else {
        Some(parts.last())
    }
}

/// `Path::file_stem` of a file name: the name before its last `'.'`, or the
/// whole name when it has no `'.'` or its only leading `'.'` is the last.
pub open spec fn stem_of(name: Seq<char>) -> Seq<char> {
    match text::rfind_char(name, '.') {
        Some(i) => if i == 0 {
            name
        } else {
            name.take(i as int)
        },
        None => name,
    }
}

/// `Path::extension` of a file name: the text after its last `'.'`, unless
/// that `'.'` is the first character or there is none.
pub open spec fn extension_of(name: Seq<char>) -> Option<Seq<char>> {
    match text::rfind_char(name, '.') {
        Some(i) => if i == 0 {
            None
        } else {
            Some(name.skip(i + 1 as int))
        },
        None => None,
    }
}

/// `Path::file_stem`.
pub open spec fn file_stem(p: Seq<char>) -> Option<Seq<char>> {
    match file_name(p) {
        Some(n) => Some(stem_of(n)),
        None => None,
    }
}

/// `Path::extension`.
pub open spec fn extension(p: Seq<char>) -> Option<Seq<char>> {
    match file_name(p) {
        Some(n) => extension_of(n),
        None => None,
    }
}

/// `Path::join` on Unix: an absolute `name` replaces `base`; otherwise a
/// `'/'` is put between them unless `base` is empty or already ends in one.
pub open spec fn joined(base: Seq<char>, name: Seq<char>) -> Seq<char> {
    if name.len() > 0 && name[0] == '/' {
        name
    } else if base.len() == 0 || base.last() == '/' {
        base + name
    } else {
        base + seq!['/'] + name
    }
}

/// Executable `joined`.
pub fn join_path(base: &[char], name: &[char]) -> (r: Vec<char>)
    ensures
        r@ == joined(base@, name@),
{
    if name.len() > 0 && name[0] == '/' {
        return text::copy_range(name, 0, name.len());
    }
    let mut r = text::copy_range(base, 0, base.len());
    if !(base.len() == 0 || base[base.len() - 1] == '/') {
        r.push('/');
    }
    text::append_chars(&mut r, name);
    proof {
        assert(base@.subrange(0, base@.len() as int) =~= base@);
        assert(name@.subrange(0, name@.len() as int) =~= name@);
    }
    r
}

/// `joined(base, name)` as a `String`.
pub fn join_str(base: &str, name: &str) -> (r: String)
    ensures
        r@ == joined(base@, name@),
{
    let b = text::chars_of(base);
    let n = text::chars_of(name);
    let j = join_path(b.as_slice(), n.as_slice());
    text::string_of(j.as_slice())
}

/// Executable `path_parts`.
pub fn parts_of(p: &[char]) -> (r: Vec<Vec<char>>)
    ensures
        text::views(r@) == path_parts(p@),
{
    let slash = vec!['/'];
    assert(slash@ =~= seq!['/']);
    let pieces = text::split_on(p, slash.as_slice());
    let ghost pv = text::views(pieces@);
    let mut r: Vec<Vec<char>> = Vec::new();
    let mut i: usize = 0;
    while i < pieces.len()
        invariant
            i <= pieces@.len(),
            pv == text::views(pieces@),
            pv == text::split_set(p@, seq!['/']),
            text::views(r@) == named(pv.take(i as int)),
        decreases pieces@.len() - i,
    {
        let piece = &pieces[i];
        assert(pv.take(i + 1).drop_last() =~= pv.take(i as int));
        assert(pv.take(i + 1).last() == piece@);
        let is_dot = piece.len() == 1 && piece[0] == '.';
        assert(is_dot == (piece@ == seq!['.'])) by {
            if piece@.len() == 1 && piece@[0] == '.' {
                assert(piece@ =~= seq!['.']);
            }
        }
        if piece.len() == 0 || is_dot {
        } else {
            let ghost before = text::views(r@);
            r.push(text::copy_range(piece.as_slice(), 0, piece.len()));
            assert(piece@.subrange(0, piece@.len() as int) =~= piece@);
            assert(text::views(r@) =~= before.push(piece@));
        }
        i = i + 1;
    }
    assert(pv.take(pv.len() as int) =~= pv);
    r
}

/// Executable `file_name`.
pub fn file_name_of(p: &[char]) -> (r: Option<Vec<char>>)
    ensures
        text::opt_seq(r) == file_name(p@),
{
    let parts = parts_of(p);
    let n = parts.len();
    if n == 0 {
        return None;
    }
    let last = &parts[n - 1];
    assert(text::views(parts@).last() == last@);
    if last.len() == 2 && last[0] == '.' && last[1] == '.' {
        assert(last@ =~= seq!['.', '.']);
        return None;
    }
    assert(last@ != seq!['.', '.']) by {
        if last@ == seq!['.', '.'] {
            assert(last@.len() == 2 && last@[0] == '.' && last@[1] == '.');
        }
    }
    Some(text::copy_range(last.as_slice(), 0, last.len()))
}

/// Lemma: what `rfind_char` finds is an occurrence, and it finds one when
/// there is one.
pub proof fn lemma_rfind_char(s: Seq<char>, c: char)
    ensures
        match text::rfind_char(s, c) {
            Some(k) => k < s.len() && s[k as int] == c && forall|j: int| k < j < s.len() ==> s[j] != c,
            None => forall|j: int| 0 <= j < s.len() ==> s[j] != c,
        },
    decreases s.len(),
{
    if s.len() > 0 && s.last() != c {
        let d = s.drop_last();
        lemma_rfind_char(d, c);
        assert(forall|j: int| 0 <= j < d.len() ==> d[j] == s[j]);
    }
}

/// Executable `stem_of`.
pub fn stem_chars(name: &[char]) -> (r: Vec<char>)
    ensures
        r@ == stem_of(name@),
{
    assert(name@.subrange(0, name@.len() as int) =~= name@);
    proof {
        lemma_rfind_char(name@, '.');
    }
    match text::rfind_char_exec(name, name.len(), '.') {
        Some(i) => {
            if i == 0 {
                assert(name@.subrange(0, name@.len() as int) =~= name@);
                text::copy_range(name, 0, name.len())
            } else {
                text::copy_range(name, 0, i)
            }
        },
        None => {
            assert(name@.subrange(0, name@.len() as int) =~= name@);
            text::copy_range(name, 0, name.len())
        },
    }
}

/// Executable `extension_of`.
pub fn extension_chars(name: &[char]) -> (r: Option<Vec<char>>)
    ensures
        text::opt_seq(r) == extension_of(name@),
{
    assert(name@.subrange(0, name@.len() as int) =~= name@);
    proof {
        lemma_rfind_char(name@, '.');
    }
    match text::rfind_char_exec(name, name.len(), '.') {
        Some(i) => {
            if i == 0 {
                None
            } else {
                Some(text::copy_range(name, i + 1, name.len()))
            }
        },
        None => None,
    }
}

} // verus!

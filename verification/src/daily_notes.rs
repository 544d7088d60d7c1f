//! Daily-note backlinks: the bullet that links a new artifact from the day's
//! note, where it goes in the note, and the relative link to the artifact.

use crate::markdown::{ContentType, WriteResult};
use crate::numbers;
use crate::paths;
use crate::text;
use vstd::prelude::*;

verus! {

/// `"## "`.
pub open spec fn h2() -> Seq<char> {
    seq!['#', '#', ' ']
}

/// The heading of the daily-note section an artifact of kind `ct` goes in.
pub open spec fn section_title(ct: ContentType) -> Seq<char> {
    match ct {
        ContentType::Meeting => seq!['M', 'e', 'e', 't', 'i', 'n', 'g', 's'],
        ContentType::Memo => seq!['V', 'o', 'i', 'c', 'e', ' ', 'M', 'e', 'm', 'o', 's'],
        ContentType::Dictation => seq!['D', 'i', 'c', 't', 'a', 't', 'i', 'o', 'n', 's'],
    }
}

fn section_title_chars(ct: ContentType) -> (r: Vec<char>)
    ensures
        r@ == section_title(ct),
{
    let r = match ct {
        ContentType::Meeting => vec!['M', 'e', 'e', 't', 'i', 'n', 'g', 's'],
        ContentType::Memo => vec!['V', 'o', 'i', 'c', 'e', ' ', 'M', 'e', 'm', 'o', 's'],
        ContentType::Dictation => vec!['D', 'i', 'c', 't', 'a', 't', 'i', 'o', 'n', 's'],
    };
    assert(r@ =~= section_title(ct));
    r
}

/// Where a new bullet goes in the text of a section that starts at its
/// heading: just before the next `"\n## "` after the heading line, if any.
pub open spec fn insert_offset(t: Seq<char>) -> Option<nat> {
    match text::find(t, seq!['\n']) {
        Some(i) => match text::find(t.skip(i + 1 as int), seq!['\n', '#', '#', ' ']) {
            Some(j) => Some(i + 1 + j),
            None => None,
        },
        None => None,
    }
}

/// Lemma: an insertion offset lies within the section text.
pub proof fn lemma_insert_offset_bound(t: Seq<char>)
    ensures
        match insert_offset(t) {
            Some(o) => o <= t.len(),
            None => true,
        },
{
    text::lemma_find_from_bounds(t, seq!['\n'], 0);
    match text::find(t, seq!['\n']) {
        Some(i) => {
            text::lemma_find_from_bounds(t.skip(i + 1 as int), seq!['\n', '#', '#', ' '], 0);
        },
        None => {},
    }
}

/// `insert_offset(t)`.
pub fn section_insert_position(t: &[char]) -> (r: Option<usize>)
    ensures
        match r {
            Some(o) => insert_offset(t@) == Some(o as nat),
            None => insert_offset(t@) is None,
        },
{
    let nl = vec!['\n'];
    assert(nl@ =~= seq!['\n']);
    proof {
        text::lemma_find_from_bounds(t@, seq!['\n'], 0);
    }
    match text::find_chars(t, nl.as_slice(), 0) {
        Some(i) => {
            let n = t.len();
            assert(i + 1 <= n);
            let rest = text::copy_range(t, i + 1, n);
            assert(rest@ =~= t@.skip(i + 1));
            let marker = vec!['\n', '#', '#', ' '];
            assert(marker@ =~= seq!['\n', '#', '#', ' ']);
            proof {
                text::lemma_find_from_bounds(rest@, marker@, 0);
            }
            match text::find_chars(rest.as_slice(), marker.as_slice(), 0) {
                Some(j) => Some(i + 1 + j),
                None => None,
            }
        },
        None => None,
    }
}

/// `s` without every leading copy of `p` (`str::trim_start_matches`).
pub open spec fn strip_leading(s: Seq<char>, p: Seq<char>) -> Seq<char>
    decreases s.len(),
{
    if p.len() > 0 && text::has_prefix(s, p) {
        strip_leading(s.skip(p.len() as int), p)
    } else {
        s
    }
}

/// The first of `ls`, trimmed, that is neither empty nor a `"## "` heading.
pub open spec fn first_summary_line(ls: Seq<Seq<char>>) -> Option<Seq<char>>
    decreases ls.len(),
{
    if ls.len() == 0 {
        None
    } else {
        let l = text::trim(ls[0]);
        if l.len() > 0 && !text::has_prefix(l, h2()) {
            Some(l)
        } else {
            first_summary_line(ls.drop_first())
        }
    }
}

/// The excerpt of a summary shown beside a backlink: its first content line
/// without leading `"- "` bullets, cut to 140 characters and marked with
/// `"..."` when cut; none when there is no such line or it is empty.
pub open spec fn excerpt_of(summary: Seq<char>) -> Option<Seq<char>> {
    match first_summary_line(text::lines(summary)) {
        None => None,
        Some(line) => {
            let cleaned = text::trim(strip_leading(line, seq!['-', ' ']));
            if cleaned.len() == 0 {
                None
            } else if cleaned.len() > 140 {
                Some(cleaned.take(140) + seq!['.', '.', '.'])
            } else {
                Some(cleaned)
            }
        },
    }
}

fn strip_leading_exec(s: &[char], p: &[char]) -> (r: Vec<char>)
    ensures
        r@ == strip_leading(s@, p@),
{
    let mut i: usize = 0;
    assert(s@.skip(0) =~= s@);
    while p.len() > 0 && i <= s.len() && p.len() <= s.len() - i && text::matches_at_exec(s, p, i)
        invariant
            i <= s@.len(),
            strip_leading(s@, p@) == strip_leading(s@.skip(i as int), p@),
        decreases s@.len() - i,
    {
        assert(s@.skip(i as int).subrange(0, p@.len() as int) =~= s@.subrange(
            i as int,
            i + p@.len(),
        ));
        assert(s@.skip(i as int).skip(p@.len() as int) =~= s@.skip(i + p@.len()));
        i = i + p.len();
    }
    proof {
        if p@.len() > 0 && text::has_prefix(s@.skip(i as int), p@) {
            assert(s@.skip(i as int).subrange(0, p@.len() as int) =~= s@.subrange(
                i as int,
                i + p@.len(),
            ));
        }
    }
    let r = text::copy_range(s, i, s.len());
    assert(r@ =~= s@.skip(i as int));
    r
}

fn first_summary_line_exec(ls: &Vec<Vec<char>>) -> (r: Option<Vec<char>>)
    ensures
        text::opt_seq(r) == first_summary_line(text::views(ls@)),
{
    let ghost lv = text::views(ls@);
    let h = vec!['#', '#', ' '];
    assert(h@ =~= h2());
    assert(lv.skip(0) =~= lv);
    let mut i: usize = 0;
    while i < ls.len()
        invariant
            i <= ls@.len(),
            lv == text::views(ls@),
            h@ == h2(),
            first_summary_line(lv) == first_summary_line(lv.skip(i as int)),
        decreases ls@.len() - i,
    {
        let l = text::trim_chars(ls[i].as_slice());
        assert(lv.skip(i as int)[0] == ls@[i as int]@);
        assert(lv.skip(i as int).drop_first() =~= lv.skip(i + 1));
        if l.len() > 0 && !text::starts_with(l.as_slice(), h.as_slice()) {
            return Some(l);
        }
        i = i + 1;
    }
    assert(lv.skip(i as int) =~= Seq::<Seq<char>>::empty());
    None
}

/// `excerpt_of(summary)` for a summary that is present; none otherwise.
pub fn summary_excerpt(summary: Option<&str>) -> (r: Option<String>)
    ensures
        match summary {
            None => r is None,
            Some(s) => text::opt_string(r) == excerpt_of(s@),
        },
{
    let s = match summary {
        Some(s) => s,
        None => return None,
    };
    let cs = text::chars_of(s);
    let ls = text::lines_of(cs.as_slice());
    let line = match first_summary_line_exec(&ls) {
        Some(l) => l,
        None => return None,
    };
    let dash = vec!['-', ' '];
    assert(dash@ =~= seq!['-', ' ']);
    let stripped = strip_leading_exec(line.as_slice(), dash.as_slice());
    let cleaned = text::trim_chars(stripped.as_slice());
    if cleaned.len() == 0 {
        return None;
    }
    if cleaned.len() > 140 {
        let mut cut = text::copy_range(cleaned.as_slice(), 0, 140);
        cut.push('.');
        cut.push('.');
        cut.push('.');
        assert(cut@ =~= cleaned@.take(140) + seq!['.', '.', '.']);
        Some(text::string_of(cut.as_slice()))
    } else {
        Some(text::string_of(cleaned.as_slice()))
    }
}

/// `"](" + link + ")"`: how a note links to `link`.
pub open spec fn link_needle(link: Seq<char>) -> Seq<char> {
    seq![']', '('] + link + seq![')']
}

/// The backlink bullet: `"- [title](link)"`, followed by `" — excerpt"`
/// when there is an excerpt.
pub open spec fn bullet_for(title: Seq<char>, link: Seq<char>, excerpt: Option<Seq<char>>) -> Seq<
    char,
> {
    let base = seq!['-', ' ', '['] + title + link_needle(link);
    match excerpt {
        Some(e) => base + seq![' ', '\u{2014}', ' '] + e,
        None => base,
    }
}

/// A daily note that does not exist yet: `"# date\n\n"`.
pub open spec fn fresh_note(date: Seq<char>) -> Seq<char> {
    seq!['#', ' '] + date + seq!['\n', '\n']
}

/// `content` with `bullet` placed in the section titled `section`: before
/// the next second-level heading after that section's heading line (or at
/// the end), on a line of its own; or, without such a section, a new section
/// appended after a blank line.
pub open spec fn with_bullet(content: Seq<char>, section: Seq<char>, bullet: Seq<char>) -> Seq<
    char,
> {
    match text::find(content, h2() + section + seq!['\n']) {
        Some(index) => {
            let position = match insert_offset(content.skip(index as int)) {
                Some(o) => index + o,
                None => content.len(),
            };
            let before = content.take(position as int);
            let after = content.skip(position as int);
            if position > 0 && content[position - 1] != '\n' {
                before + bullet + seq!['\n'] + seq!['\n'] + after
            } else {
                before + bullet + seq!['\n'] + after
            }
        },
        None => {
            let padded = if text::has_suffix(content, seq!['\n', '\n']) {
                content
            } else if text::has_suffix(content, seq!['\n']) {
                content.push('\n')
            } else {
                content.push('\n').push('\n')
            };
            padded + h2() + section + seq!['\n', '\n'] + bullet + seq!['\n']
        },
    }
}

/// The new text of the daily note after linking an artifact, or none when
/// the note already links to `link` and nothing is to be written.
/// `existing` is the note's text when the note exists.
pub open spec fn backlinked_note(
    existing: Option<Seq<char>>,
    date: Seq<char>,
    title: Seq<char>,
    ct: ContentType,
    excerpt: Option<Seq<char>>,
    link: Seq<char>,
) -> Option<Seq<char>> {
    let content = match existing {
        Some(c) => c,
        None => fresh_note(date),
    };
    if text::contains(content, link_needle(link)) {
        None
    } else {
        Some(with_bullet(content, section_title(ct), bullet_for(title, link, excerpt)))
    }
}

/// The excerpt of an optional summary.
pub open spec fn excerpt_of_opt(summary: Option<Seq<char>>) -> Option<Seq<char>> {
    match summary {
        Some(s) => excerpt_of(s),
        None => None,
    }
}

/// The characters of an optional string slice.
pub open spec fn opt_str(o: Option<&str>) -> Option<Seq<char>> {
    match o {
        Some(s) => Some(s@),
        None => None,
    }
}

fn bullet_chars(title: &[char], link: &[char], excerpt: &Option<String>) -> (r: Vec<char>)
    ensures
        r@ == bullet_for(title@, link@, text::opt_string(*excerpt)),
{
    let mut r = vec!['-', ' ', '['];
    text::append_chars(&mut r, title);
    r.push(']');
    r.push('(');
    text::append_chars(&mut r, link);
    r.push(')');
    let ghost base = r@;
    assert(base =~= seq!['-', ' ', '['] + title@ + link_needle(link@));
    match excerpt {
        Some(e) => {
            r.push(' ');
            r.push('\u{2014}');
            r.push(' ');
            let ec = text::chars_of(e.as_str());
            text::append_chars(&mut r, ec.as_slice());
            assert(r@ =~= base + seq![' ', '\u{2014}', ' '] + e@);
        },
        None => {},
    }
    r
}

fn with_bullet_exec(content: &[char], section: &[char], bullet: &[char]) -> (r: Vec<char>)
    ensures
        r@ == with_bullet(content@, section@, bullet@),
{
    let mut header = vec!['#', '#', ' '];
    text::append_chars(&mut header, section);
    header.push('\n');
    assert(header@ =~= h2() + section@ + seq!['\n']);
    let n = content.len();
    proof {
        text::lemma_find_from_bounds(content@, header@, 0);
    }
    match text::find_chars(content, header.as_slice(), 0) {
        Some(index) => {
            let sub = text::copy_range(content, index, n);
            assert(sub@ =~= content@.skip(index as int));
            proof {
                lemma_insert_offset_bound(sub@);
            }
            let position = match section_insert_position(sub.as_slice()) {
                Some(o) => index + o,
                None => n,
            };
            let mut r = text::copy_range(content, 0, position);
            text::append_chars(&mut r, bullet);
            r.push('\n');
            let lone = position > 0 && content[position - 1] != '\n';
            if lone {
                r.push('\n');
            }
            let after = text::copy_range(content, position, n);
            text::append_chars(&mut r, after.as_slice());
            assert(content@.subrange(0, position as int) =~= content@.take(position as int));
            assert(after@ =~= content@.skip(position as int));
            r
        },
        None => {
            let mut r = text::copy_range(content, 0, n);
            assert(r@ =~= content@);
            let nn = vec!['\n', '\n'];
            let nl = vec!['\n'];
            assert(nn@ =~= seq!['\n', '\n']);
            assert(nl@ =~= seq!['\n']);
            if !text::ends_with(content, nn.as_slice()) {
                if !text::ends_with(content, nl.as_slice()) {
                    r.push('\n');
                }
                r.push('\n');
            }
            r.push('#');
            r.push('#');
            r.push(' ');
            text::append_chars(&mut r, section);
            r.push('\n');
            r.push('\n');
            text::append_chars(&mut r, bullet);
            r.push('\n');
            r
        },
    }
}

/// `backlinked_note`, with the excerpt taken from `summary`: the text to
/// write to the daily note, or none when it already links to `link`.
pub fn backlink_note(
    existing: Option<&str>,
    date: &str,
    result: &WriteResult,
    summary: Option<&str>,
    link: &str,
) -> (r: Option<String>)
    ensures
        text::opt_string(r) == backlinked_note(
            opt_str(existing),
            date@,
            result.title@,
            result.content_type,
            excerpt_of_opt(opt_str(summary)),
            link@,
        ),
{
    let excerpt = summary_excerpt(summary);
    let title = text::chars_of(result.title.as_str());
    let lc = text::chars_of(link);
    let bullet = bullet_chars(title.as_slice(), lc.as_slice(), &excerpt);
    let content = match existing {
        Some(e) => text::chars_of(e),
        None => {
            let mut c = vec!['#', ' '];
            let dc = text::chars_of(date);
            text::append_chars(&mut c, dc.as_slice());
            c.push('\n');
            c.push('\n');
            assert(c@ =~= fresh_note(date@));
            c
        },
    };
    let mut needle = vec![']', '('];
    text::append_chars(&mut needle, lc.as_slice());
    needle.push(')');
    assert(needle@ =~= link_needle(lc@));
    if text::find_chars(content.as_slice(), needle.as_slice(), 0).is_some() {
        return None;
    }
    let section = section_title_chars(result.content_type);
    let r = with_bullet_exec(content.as_slice(), section.as_slice(), bullet.as_slice());
    Some(text::string_of(r.as_slice()))
}

/// The relative path from directory `from` to `to`, both given as the
/// names along their canonical absolute paths: one `".."` for each name of
/// `from` past their common prefix, then the rest of `to`, joined by `'/'`.
pub open spec fn relative_between(from: Seq<Seq<char>>, to: Seq<Seq<char>>) -> Seq<char> {
    let k = common_prefix_len(from, to);
    text::join(Seq::new((from.len() - k) as nat, |i: int| seq!['.', '.']) + to.skip(k as int), seq!['/'])
}

/// The length of the longest common prefix of `a` and `b`.
pub open spec fn common_prefix_len(a: Seq<Seq<char>>, b: Seq<Seq<char>>) -> nat
    decreases a.len(),
{
    if a.len() == 0 || b.len() == 0 || a[0] != b[0] {
        0
    } else {
        1 + common_prefix_len(a.drop_first(), b.drop_first())
    }
}

/// Lemma: the common prefix is a prefix of both.
pub proof fn lemma_common_prefix(a: Seq<Seq<char>>, b: Seq<Seq<char>>)
    ensures
        common_prefix_len(a, b) <= a.len(),
        common_prefix_len(a, b) <= b.len(),
        forall|i: int| 0 <= i < common_prefix_len(a, b) ==> a[i] == b[i],
        common_prefix_len(a, b) < a.len() && common_prefix_len(a, b) < b.len() ==> a[common_prefix_len(a, b) as int] != b[common_prefix_len(a, b) as int],
    decreases a.len(),
{
    if !(a.len() == 0 || b.len() == 0 || a[0] != b[0]) {
        lemma_common_prefix(a.drop_first(), b.drop_first());
        assert(forall|i: int| 0 < i < a.len() ==> a[i] == a.drop_first()[i - 1]);
        assert(forall|i: int| 0 < i < b.len() ==> b[i] == b.drop_first()[i - 1]);
    }
}

/// The link from the daily-note directory to the artifact: the relative
/// path when both paths could be resolved (their names given), else the
/// artifact's path as it was given.
pub open spec fn link_target(from: Option<Seq<Seq<char>>>, to: Option<Seq<Seq<char>>>, target: Seq<char>) -> Seq<char> {
    match (from, to) {
        (Some(f), Some(t)) => relative_between(f, t),
        _ => target,
    }
}

/// The optional views of an optional list of strings.
pub open spec fn opt_names(o: Option<Vec<String>>) -> Option<Seq<Seq<char>>> {
    match o {
        Some(v) => Some(text::string_views(v@)),
        None => None,
    }
}

/// `link_target(from, to, target)`.
pub fn relative_or_absolute_link(from: Option<Vec<String>>, to: Option<Vec<String>>, target: &str) -> (r: String)
    ensures
        r@ == link_target(opt_names(from), opt_names(to), target@),
{
    let (f, t) = match (from, to) {
        (Some(f), Some(t)) => (f, t),
        _ => return target.to_owned(),
    };
    let ghost fv = text::string_views(f@);
    let ghost tv = text::string_views(t@);
    proof {
        lemma_common_prefix(fv, tv);
    }
    let mut k: usize = 0;
    while k < f.len() && k < t.len() && f[k] == t[k]
        invariant
            k <= f@.len(),
            k <= t@.len(),
            fv == text::string_views(f@),
            tv == text::string_views(t@),
            k <= common_prefix_len(fv, tv),
            forall|i: int| 0 <= i < k ==> fv[i] == tv[i],
        decreases f@.len() - k,
    {
        assert(fv[k as int] == f@[k as int]@);
        assert(tv[k as int] == t@[k as int]@);
        proof {
            lemma_prefix_step(fv, tv, k as nat);
        }
        k = k + 1;
    }
    proof {
        lemma_prefix_exact(fv, tv, k as nat);
    }
    let mut parts: Vec<Vec<char>> = Vec::new();
    let mut i: usize = k;
    while i < f.len()
        invariant
            k <= i <= f@.len(),
            text::views(parts@) == Seq::new((i - k) as nat, |j: int| seq!['.', '.']),
        decreases f@.len() - i,
    {
        let ghost before = text::views(parts@);
        let dd = vec!['.', '.'];
        assert(dd@ =~= seq!['.', '.']);
        parts.push(dd);
        assert(text::views(parts@) =~= before.push(seq!['.', '.']));
        assert(text::views(parts@) =~= Seq::new((i + 1 - k) as nat, |j: int| seq!['.', '.']));
        i = i + 1;
    }
    let ghost ups = text::views(parts@);
    let mut j: usize = k;
    while j < t.len()
        invariant
            k <= j <= t@.len(),
            tv == text::string_views(t@),
            text::views(parts@) == ups + tv.subrange(k as int, j as int),
        decreases t@.len() - j,
    {
        let ghost before = text::views(parts@);
        let piece = text::chars_of(t[j].as_str());
        assert(tv[j as int] == t@[j as int]@);
        parts.push(piece);
        assert(text::views(parts@) =~= before.push(tv[j as int]));
        assert(text::views(parts@) =~= ups + tv.subrange(k as int, j + 1));
        j = j + 1;
    }
    assert(tv.subrange(k as int, tv.len() as int) =~= tv.skip(k as int));
    let slash = vec!['/'];
    assert(slash@ =~= seq!['/']);
    let joined = text::join_chars(&parts, slash.as_slice());
    text::string_of(joined.as_slice())
}

proof fn lemma_prefix_step(a: Seq<Seq<char>>, b: Seq<Seq<char>>, k: nat)
    requires
        k < a.len(),
        k < b.len(),
        k <= common_prefix_len(a, b),
        a[k as int] == b[k as int],
        forall|i: int| 0 <= i < k ==> a[i] == b[i],
    ensures
        k + 1 <= common_prefix_len(a, b),
    decreases k,
{
    lemma_common_prefix(a, b);
    if k == common_prefix_len(a, b) {
        assert(false);
    }
}

proof fn lemma_prefix_exact(a: Seq<Seq<char>>, b: Seq<Seq<char>>, k: nat)
    requires
        k <= common_prefix_len(a, b),
        k <= a.len(),
        k <= b.len(),
        k == a.len() || k == b.len() || a[k as int] != b[k as int],
    ensures
        k == common_prefix_len(a, b),
{
    lemma_common_prefix(a, b);
}

/// Lemma: a match at or after `j` makes the search from `j` succeed.
pub proof fn lemma_find_from_some(s: Seq<char>, p: Seq<char>, j: nat, k: nat)
    requires
        j <= k,
        text::matches_at(s, p, k as int),
    ensures
        text::find_from(s, p, j) is Some,
    decreases k - j,
{
    if !text::matches_at(s, p, j as int) {
        lemma_find_from_some(s, p, j + 1, k);
    }
}

/// Lemma: a match inside a match is a match.
pub proof fn lemma_match_within(s: Seq<char>, b: Seq<char>, n: Seq<char>, i: int, j: int)
    requires
        text::matches_at(s, b, i),
        text::matches_at(b, n, j),
    ensures
        text::matches_at(s, n, i + j),
{
    assert(s.subrange(i + j, i + j + n.len()) =~= b.subrange(j, j + n.len()));
}

/// Lemma: the bullet holds the link.
pub proof fn lemma_bullet_links(title: Seq<char>, link: Seq<char>, excerpt: Option<Seq<char>>)
    ensures
        text::matches_at(bullet_for(title, link, excerpt), link_needle(link), 3 + title.len() as int),
{
    let b = bullet_for(title, link, excerpt);
    let n = link_needle(link);
    let o: int = 3 + title.len() as int;
    assert(b.subrange(o, o + n.len()) =~= n);
}

/// Lemma: `with_bullet` keeps `bullet` whole, somewhere in the note.
pub proof fn lemma_with_bullet_holds(content: Seq<char>, section: Seq<char>, bullet: Seq<char>)
    ensures
        exists|k: int| text::matches_at(with_bullet(content, section, bullet), bullet, k),
{
    let r = with_bullet(content, section, bullet);
    let header = h2() + section + seq!['\n'];
    text::lemma_find_from_bounds(content, header, 0);
    match text::find(content, header) {
        Some(index) => {
            lemma_insert_offset_bound(content.skip(index as int));
            let position = match insert_offset(content.skip(index as int)) {
                Some(o) => index + o,
                None => content.len(),
            };
            let before = content.take(position as int);
            assert(before.len() == position);
            let p: int = position as int;
            assert(r.subrange(p, p + bullet.len()) =~= bullet);
            assert(text::matches_at(r, bullet, position as int));
        },
        None => {
            let padded = if text::has_suffix(content, seq!['\n', '\n']) {
                content
            } else if text::has_suffix(content, seq!['\n']) {
                content.push('\n')
            } else {
                content.push('\n').push('\n')
            };
            let k: int = (padded.len() + 3 + section.len() + 2) as int;
            assert(r.subrange(k, k + bullet.len()) =~= bullet);
            assert(text::matches_at(r, bullet, k));
        },
    }
}

/// The path of the daily note for `date` (as `YYYY-MM-DD`) in `note_dir`.
pub open spec fn daily_note_path(note_dir: Seq<char>, date: Seq<char>) -> Seq<char> {
    paths::joined(note_dir, date + ".md"@)
}

/// One backlink into the daily notes: nothing when they are off; else the
/// day's note path and the text to write there, none when the note already
/// links the artifact.
pub open spec fn backlink_step(
    enabled: bool,
    note_dir: Seq<char>,
    existing: Option<Seq<char>>,
    date: Seq<char>,
    title: Seq<char>,
    ct: ContentType,
    excerpt: Option<Seq<char>>,
    link: Seq<char>,
) -> Option<(Seq<char>, Option<Seq<char>>)> {
    if !enabled {
        None
    } else {
        Some((daily_note_path(note_dir, date), backlinked_note(existing, date, title, ct, excerpt, link)))
    }
}

/// Links `result` from the daily note of `date` in `note_dir`, whose
/// current text is `existing` (none when the note does not exist yet):
/// none when daily notes are off; else the note's path and the new text to
/// write, if any.
pub fn append_backlink_step(
    enabled: bool,
    note_dir: &str,
    existing: Option<&str>,
    date: &str,
    result: &WriteResult,
    summary: Option<&str>,
    link: &str,
) -> (r: Option<(String, Option<String>)>)
    ensures
        match r {
            None => backlink_step(
                enabled,
                note_dir@,
                opt_str(existing),
                date@,
                result.title@,
                result.content_type,
                excerpt_of_opt(opt_str(summary)),
                link@,
            ) is None,
            Some((path, note)) => backlink_step(
                enabled,
                note_dir@,
                opt_str(existing),
                date@,
                result.title@,
                result.content_type,
                excerpt_of_opt(opt_str(summary)),
                link@,
            ) == Some((path@, text::opt_string(note))),
        },
{
    if !enabled {
        return None;
    }
    let name = numbers::concat2(date, ".md");
    let path = paths::join_str(note_dir, name.as_str());
    let note = backlink_note(existing, date, result, summary, link);
    Some((path, note))
}

/// Linking the same artifact twice links it once: the note that the first
/// link writes already holds the link, so the second call names the same
/// note and writes nothing.
pub proof fn backlink_is_idempotent(
    enabled: bool,
    note_dir: Seq<char>,
    existing: Option<Seq<char>>,
    date: Seq<char>,
    title: Seq<char>,
    ct: ContentType,
    excerpt: Option<Seq<char>>,
    link: Seq<char>,
)
    ensures
        match backlink_step(enabled, note_dir, existing, date, title, ct, excerpt, link) {
            Some((path, Some(note))) => backlink_step(enabled, note_dir, Some(note), date, title, ct, excerpt, link)
                == Some((path, None::<Seq<char>>)),
            _ => true,
        },
{
    match backlinked_note(existing, date, title, ct, excerpt, link) {
        Some(note) => {
            let content = match existing {
                Some(c) => c,
                None => fresh_note(date),
            };
            let b = bullet_for(title, link, excerpt);
            lemma_with_bullet_holds(content, section_title(ct), b);
            let k = choose|k: int| text::matches_at(note, b, k);
            lemma_bullet_links(title, link, excerpt);
            lemma_match_within(note, b, link_needle(link), k, 3 + title.len() as int);
            lemma_find_from_some(note, link_needle(link), 0, (k + 3 + title.len()) as nat);
        },
        None => {},
    }
}

/// Whether `c` does not occur in `s`.
pub open spec fn free_of(s: Seq<char>, c: char) -> bool {
    forall|i: int| 0 <= i < s.len() ==> s[i] != c
}

/// Whether `"]("` does not occur in `s`.
pub open spec fn no_link_close(s: Seq<char>) -> bool {
    forall|i: int| 0 <= i < s.len() - 1 ==> !(#[trigger] s[i] == ']' && s[i + 1] == '(')
}

/// What follows the title in a backlink bullet line: `"](link)"`, the
/// excerpt if any, and the line's end.
pub open spec fn after_title(link: Seq<char>, excerpt: Option<Seq<char>>) -> Seq<char> {
    link_needle(link) + match excerpt {
        Some(e) => seq![' ', '\u{2014}', ' '] + e,
        None => Seq::<char>::empty(),
    } + seq!['\n']
}

/// Whether `p` occurs in `s` at exactly one position.
pub open spec fn occurs_once(s: Seq<char>, p: Seq<char>) -> bool {
    &&& exists|k: int| text::matches_at(s, p, k)
    &&& forall|j: int, k: int| text::matches_at(s, p, j) && text::matches_at(s, p, k) ==> j == k
}

/// The start of a link to `title`: `"[title]("`.
pub open spec fn title_link(title: Seq<char>) -> Seq<char> {
    seq!['['] + title + seq![']', '(']
}

proof fn lemma_free_concat(a: Seq<char>, b: Seq<char>, c: char)
    requires
        free_of(a, c),
        free_of(b, c),
    ensures
        free_of(a + b, c),
{
    assert forall|i: int| 0 <= i < (a + b).len() implies (a + b)[i] != c by {
        if i >= a.len() {
            assert((a + b)[i] == b[i - a.len()]);
        }
    }
}

proof fn lemma_not_found(s: Seq<char>, p: Seq<char>, c: char)
    requires
        p.len() > 0,
        p[0] == c,
        free_of(s, c),
    ensures
        text::find(s, p) is None,
{
    text::lemma_find_from_bounds(s, p, 0);
    if let Some(k) = text::find(s, p) {
        assert(s.subrange(k as int, (k + p.len()) as int)[0] == s[k as int]);
    }
}

/// A day's first backlink creates the day's note with the section heading
/// for the artifact's kind and a link to its title exactly once (a later
/// call for the same artifact leaves the note as it is, see
/// `backlink_is_idempotent`). Stated where the text after the title in the
/// bullet line (the link and the excerpt) does not itself hold the title
/// link, for titles without `"]("`, and for dates without `[`, `]` or `#`,
/// as dates written `YYYY-MM-DD` are.
#[verifier::spinoff_prover]
#[verifier::rlimit(40)]
pub proof fn first_backlink_links_title_once(
    date: Seq<char>,
    title: Seq<char>,
    ct: ContentType,
    excerpt: Option<Seq<char>>,
    link: Seq<char>,
)
    requires
        free_of(date, '['),
        free_of(date, ']'),
        free_of(date, '#'),
        no_link_close(title),
        !text::contains(after_title(link, excerpt), title_link(title)),
    ensures
        backlinked_note(None, date, title, ct, excerpt, link) is Some,
        text::contains(
            backlinked_note(None, date, title, ct, excerpt, link)->0,
            h2() + section_title(ct) + seq!['\n'],
        ),
        occurs_once(backlinked_note(None, date, title, ct, excerpt, link)->0, title_link(title)),
{
    let fresh = fresh_note(date);
    let head = seq!['#', ' '];
    let nl2 = seq!['\n', '\n'];
    assert(fresh == head + date + nl2);
    assert(free_of(head, ']') && free_of(nl2, ']') && free_of(head, '[') && free_of(nl2, '['));
    lemma_free_concat(head, date, ']');
    lemma_free_concat(head + date, nl2, ']');
    lemma_not_found(fresh, link_needle(link), ']');
    let section = section_title(ct);
    let header = h2() + section + seq!['\n'];
    text::lemma_find_from_bounds(fresh, header, 0);
    if let Some(k) = text::find(fresh, header) {
        assert(fresh.subrange(k as int, (k + header.len()) as int)[0] == fresh[k as int]);
        assert(fresh.subrange(k as int, (k + header.len()) as int)[1] == fresh[(k + 1) as int]);
        if k > 0 {
            assert(fresh[k as int] == date[(k - 2) as int]);
        }
        assert(false);
    }
    assert(text::has_suffix(fresh, nl2)) by {
        assert(fresh.subrange(fresh.len() - 2, fresh.len() as int) =~= nl2);
    }
    let b = bullet_for(title, link, excerpt);
    let note = fresh + h2() + section + nl2 + b + seq!['\n'];
    assert(backlinked_note(None, date, title, ct, excerpt, link) == Some(note));
    let x = fresh + h2() + section + nl2;
    assert(note.subrange(fresh.len() as int, (fresh.len() + header.len()) as int) =~= header);
    text::lemma_find_from_bounds(note, header, 0);
    if text::find(note, header) is None {
        assert(text::find_from(note, header, 0) is None);
        lemma_find_none_at(note, header, 0, fresh.len());
        assert(false);
    }
    let p = title_link(title);
    let at: int = (x.len() + 2) as int;
    assert(note.subrange(at, at + p.len()) =~= p);
    assert(text::matches_at(note, p, at));
    // Every `[` of the note before or after the title is the one that
    // opens the bullet's link, and a match cannot start inside the title.
    let ex_part = match excerpt {
        Some(e) => seq![' ', '\u{2014}', ' '] + e,
        None => Seq::<char>::empty(),
    };
    let rest = link_needle(link) + ex_part + seq!['\n'];
    let tail = title + rest;
    assert(note =~= x + seq!['-', ' ', '['] + tail);
    assert(free_of(h2(), '['));
    assert(free_of(section, '[')) by {
        reveal_with_fuel(section_title, 1);
    }
    lemma_free_concat(head, date, '[');
    lemma_free_concat(head + date, nl2, '[');
    lemma_free_concat(fresh, h2(), '[');
    lemma_free_concat(fresh + h2(), section, '[');
    lemma_free_concat(fresh + h2() + section, nl2, '[');
    assert(rest == after_title(link, excerpt));
    let t = title.len() as int;
    assert(tail[t] == ']' && tail[t + 1] == '(');
    assert forall|j: int| text::matches_at(note, p, j) implies j == at by {
        assert(note.subrange(j, j + p.len())[0] == note[j]);
        assert(note[j] == '[');
        if j < x.len() {
            assert(note[j] == x[j]);
        } else if j > at {
            let d = j - at - 1;
            assert(note[j] == tail[d]);
            if d >= t {
                let o = d - t;
                assert(note.subrange(j, j + p.len()) =~= rest.subrange(o, o + p.len())) by {
                    assert(note =~= (x + seq!['-', ' ', '['] + title) + rest);
                }
                assert(text::matches_at(rest, p, o));
                lemma_find_from_some(rest, p, 0, o as nat);
            } else if d == 0 {
                assert(note.subrange(j, j + p.len())[t + 1] == note[j + t + 1]);
                assert(p[t + 1] == ']');
                assert(note[j + t + 1] == tail[t + 1]);
            } else {
                let k1 = t - d;
                assert(note.subrange(j, j + p.len())[k1] == note[j + k1]);
                assert(note.subrange(j, j + p.len())[k1 + 1] == note[j + k1 + 1]);
                assert(note[j + k1] == tail[t]);
                assert(note[j + k1 + 1] == tail[t + 1]);
                assert(p[k1] == title[k1 - 1]);
                assert(p[k1 + 1] == title[k1]);
                assert(!(title[k1 - 1] == ']' && title[k1] == '('));
            }
        } else if j < at {
            assert(note[j] == seq!['-', ' ', '['][j - x.len()]);
        }
    }
    assert(backlinked_note(None, date, title, ct, excerpt, link) == Some(note));
    assert(text::contains(note, header));
    assert(header == h2() + section_title(ct) + seq!['\n']);
    assert(p == title_link(title));
    assert(exists|k: int| text::matches_at(note, title_link(title), k));
    assert forall|j: int, k: int|
        text::matches_at(note, title_link(title), j) && text::matches_at(note, title_link(title), k) implies j
        == k by {
        assert(text::matches_at(note, p, j));
        assert(text::matches_at(note, p, k));
    }
    assert(occurs_once(note, p));
}

/// A search from `i` that finds nothing finds no match at any `k >= i`.
proof fn lemma_find_none_at(s: Seq<char>, p: Seq<char>, i: nat, k: nat)
    requires
        text::find_from(s, p, i) is None,
        i <= k,
    ensures
        !text::matches_at(s, p, k as int),
    decreases k - i,
{
    if i > s.len() || i + p.len() > s.len() {
    } else if text::matches_at(s, p, i as int) {
    } else if i < k {
        lemma_find_none_at(s, p, i + 1, k);
    }
}

/// A new bullet goes to the end of its section when that section is the
/// note's last: when the note has the section's heading line and no
/// `"\n## "` heading follows it, the note after linking is the old note
/// followed by the bullet and a line break (two when the old note did not
/// end in one); the bullet is never put before the heading. (When the
/// note does not end in a line break, the break is inserted at the end
/// first and the bullet then at that same place, so the break ends up
/// after the bullet.)
pub proof fn bullet_ends_last_section(content: Seq<char>, section: Seq<char>, bullet: Seq<char>, index: nat)
    requires
        text::find(content, h2() + section + seq!['\n']) == Some(index),
        !text::contains(content.skip(index as int), seq!['\n', '#', '#', ' ']),
    ensures
        with_bullet(content, section, bullet) == if content.last() == '\n' {
            content + bullet + seq!['\n']
        } else {
            content + bullet + seq!['\n', '\n']
        },
{
    let header = h2() + section + seq!['\n'];
    let t = content.skip(index as int);
    let marker = seq!['\n', '#', '#', ' '];
    text::lemma_find_from_bounds(content, header, 0);
    text::lemma_find_from_bounds(t, seq!['\n'], 0);
    if let Some(i) = text::find(t, seq!['\n']) {
        let u = t.skip(i + 1 as int);
        text::lemma_find_from_bounds(u, marker, 0);
        if let Some(j) = text::find(u, marker) {
            assert(t.subrange((i + 1 + j) as int, (i + 1 + j + 4) as int) =~= u.subrange(j as int, (j + 4) as int));
            assert(text::matches_at(t, marker, (i + 1 + j) as int));
            lemma_find_from_some(t, marker, 0, (i + 1 + j) as nat);
            assert(false);
        }
    }
    assert(insert_offset(t) is None);
    assert(content.len() > 0);
    assert(content.take(content.len() as int) =~= content);
    assert(content.skip(content.len() as int) =~= Seq::<char>::empty());
}

} // verus!

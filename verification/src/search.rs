//! Built-in search over meeting markdown: frontmatter fields, filters, a
//! case-insensitive text match, the snippet around it, and newest-first
//! ordering.

use crate::paths;
use crate::text;
use vstd::prelude::*;

verus! {

/// One meeting that matched a search.
#[derive(Debug, Clone)]
pub struct SearchResult {
    pub path: String,
    pub title: String,
    pub date: String,
    pub content_type: String,
    pub snippet: String,
}

/// Restrictions on which meetings a search returns.
#[derive(Debug, Clone)]
pub struct SearchFilters {
    pub content_type: Option<String>,
    pub since: Option<String>,
    pub attendee: Option<String>,
}

/// `"---"`.
pub open spec fn fence() -> Seq<char> {
    seq!['-', '-', '-']
}

/// The frontmatter and body of a markdown file: when it starts with `"---"`
/// and a later line starts with `"---"`, the text between them and the text
/// after the closing line; otherwise no frontmatter and the whole text.
pub open spec fn frontmatter_split(c: Seq<char>) -> (Seq<char>, Seq<char>) {
    if !text::has_prefix(c, fence()) {
        (Seq::empty(), c)
    } else {
        match text::find(c.skip(3), seq!['\n', '-', '-', '-']) {
            Some(end) => {
                let fm_end = end + 3;
                let body_start = fm_end + 4;
                let bs = match text::find(c.skip(body_start as int), seq!['\n']) {
                    Some(i) => body_start + i + 1,
                    None => body_start,
                };
                (c.subrange(3, fm_end as int), c.skip(bs as int))
            },
            None => (Seq::empty(), c),
        }
    }
}

/// `frontmatter_split(content)`.
pub fn split_frontmatter(content: &str) -> (r: (String, String))
    ensures
        (r.0@, r.1@) == frontmatter_split(content@),
{
    let c = text::chars_of(content);
    let n = c.len();
    let f = vec!['-', '-', '-'];
    assert(f@ =~= fence());
    if !text::starts_with(c.as_slice(), f.as_slice()) {
        return (String::new(), content.to_owned());
    }
    let rest = text::copy_range(c.as_slice(), 3, n);
    assert(rest@ =~= c@.skip(3));
    let close = vec!['\n', '-', '-', '-'];
    assert(close@ =~= seq!['\n', '-', '-', '-']);
    proof {
        text::lemma_find_from_bounds(rest@, close@, 0);
    }
    match text::find_chars(rest.as_slice(), close.as_slice(), 0) {
        Some(end) => {
            let fm_end = end + 3;
            let body_start = fm_end + 4;
            let tail = text::copy_range(c.as_slice(), body_start, n);
            assert(tail@ =~= c@.skip(body_start as int));
            let nl = vec!['\n'];
            assert(nl@ =~= seq!['\n']);
            proof {
                text::lemma_find_from_bounds(tail@, nl@, 0);
            }
            let bs = match text::find_chars(tail.as_slice(), nl.as_slice(), 0) {
                Some(i) => body_start + i + 1,
                None => body_start,
            };
            let fm = text::copy_range(c.as_slice(), 3, fm_end);
            let body = text::copy_range(c.as_slice(), bs, n);
            assert(body@ =~= c@.skip(bs as int));
            (text::string_of(fm.as_slice()), text::string_of(body.as_slice()))
        },
        None => (String::new(), content.to_owned()),
    }
}

/// The value of the first of `ls` that, trimmed, starts with `prefix`: the
/// rest of that line, trimmed, without surrounding double and then single
/// quotes.
pub open spec fn field_in_lines(ls: Seq<Seq<char>>, prefix: Seq<char>) -> Option<Seq<char>>
    decreases ls.len(),
{
    if ls.len() == 0 {
        None
    } else {
        let t = text::trim(ls[0]);
        if text::has_prefix(t, prefix) {
            Some(
                text::trim_by(
                    text::trim_by(text::trim(t.skip(prefix.len() as int)), text::one_of(seq!['"'])),
                    text::one_of(seq!['\'']),
                ),
            )
        } else {
            field_in_lines(ls.drop_first(), prefix)
        }
    }
}

/// A simple `key: value` field of YAML frontmatter.
pub open spec fn field_value(fm: Seq<char>, key: Seq<char>) -> Option<Seq<char>> {
    field_in_lines(text::lines(fm), key.push(':'))
}

fn trim_char(s: &[char], c: char) -> (r: Vec<char>)
    ensures
        r@ == text::trim_by(s@, text::one_of(seq![c])),
{
    let set = vec![c];
    assert(set@ =~= seq![c]);
    text::trim_by_set(s, set.as_slice())
}

/// `field_value(fm, key)`.
pub fn extract_field(fm: &str, key: &str) -> (r: Option<String>)
    ensures
        text::opt_string(r) == field_value(fm@, key@),
{
    let mut prefix = text::chars_of(key);
    prefix.push(':');
    let fc = text::chars_of(fm);
    let ls = text::lines_of(fc.as_slice());
    let ghost lv = text::views(ls@);
    assert(lv.skip(0) =~= lv);
    let mut i: usize = 0;
    while i < ls.len()
        invariant
            i <= ls@.len(),
            lv == text::views(ls@),
            lv == text::lines(fm@),
            prefix@ == key@.push(':'),
            field_value(fm@, key@) == field_in_lines(lv.skip(i as int), prefix@),
        decreases ls@.len() - i,
    {
        assert(lv.skip(i as int)[0] == ls@[i as int]@);
        assert(lv.skip(i as int).drop_first() =~= lv.skip(i + 1));
        let t = text::trim_chars(ls[i].as_slice());
        if text::starts_with(t.as_slice(), prefix.as_slice()) {
            let rest = text::copy_range(t.as_slice(), prefix.len(), t.len());
            assert(rest@ =~= t@.skip(prefix@.len() as int));
            let v0 = text::trim_chars(rest.as_slice());
            let v1 = trim_char(v0.as_slice(), '"');
            let v2 = trim_char(v1.as_slice(), '\'');
            return Some(text::string_of(v2.as_slice()));
        }
        i = i + 1;
    }
    assert(lv.skip(i as int) =~= Seq::<Seq<char>>::empty());
    None
}

/// The first character position at or after `i` from which the lowercased
/// rest of `body` starts with `q`.
pub open spec fn match_position(body: Seq<char>, q: Seq<char>, i: nat) -> Option<nat>
    decreases body.len() - i,
{
    if i >= body.len() {
        None
    } else if text::has_prefix(text::lowercase(body.skip(i as int)), q) {
        Some(i)
    } else {
        match_position(body, q, i + 1)
    }
}

/// The snippet for a match of `q` in `body`: the whole line around the
/// first match, trimmed, cut to 200 characters and marked with `"..."` when
/// cut; empty when there is no match.
pub open spec fn snippet_of(body: Seq<char>, q: Seq<char>) -> Seq<char> {
    match match_position(body, q, 0) {
        Some(pos) => {
            let start = match text::rfind_char(body.take(pos as int), '\n') {
                Some(k) => k + 1,
                None => 0,
            };
            let end = match text::find(body.skip(pos as int), seq!['\n']) {
                Some(k) => pos + k,
                None => body.len(),
            };
            let line = text::trim(body.subrange(start as int, end as int));
            if line.len() > 200 {
                line.take(200) + seq!['.', '.', '.']
            } else {
                line
            }
        },
        None => Seq::empty(),
    }
}

proof fn lemma_match_position_bound(body: Seq<char>, q: Seq<char>, i: nat)
    ensures
        match match_position(body, q, i) {
            Some(p) => i <= p < body.len(),
            None => true,
        },
    decreases body.len() - i,
{
    if i < body.len() && !text::has_prefix(text::lowercase(body.skip(i as int)), q) {
        lemma_match_position_bound(body, q, i + 1);
    }
}

fn snippet_position(b: &Vec<char>, q: &Vec<char>) -> (r: Option<usize>)
    ensures
        match r {
            Some(p) => match_position(b@, q@, 0) == Some(p as nat),
            None => match_position(b@, q@, 0) is None,
        },
{
    let n = b.len();
    let mut i: usize = 0;
    while i < n
        invariant
            i <= n == b@.len(),
            match_position(b@, q@, 0) == match_position(b@, q@, i as nat),
        decreases n - i,
    {
        let rest = text::copy_range(b.as_slice(), i, n);
        assert(rest@ =~= b@.skip(i as int));
        let low = text::to_lowercase_chars(rest.as_slice());
        if text::starts_with(low.as_slice(), q.as_slice()) {
            return Some(i);
        }
        i = i + 1;
    }
    None
}

/// `snippet_of(body, query)`; `query` is expected in lower case.
pub fn extract_snippet(body: &str, query: &str) -> (r: String)
    ensures
        r@ == snippet_of(body@, query@),
{
    let b = text::chars_of(body);
    let q = text::chars_of(query);
    let n = b.len();
    let pos = match snippet_position(&b, &q) {
        Some(p) => p,
        None => return String::new(),
    };
    proof {
        lemma_match_position_bound(b@, q@, 0);
    }
    assert(b@.subrange(0, pos as int) =~= b@.take(pos as int));
    proof {
        paths::lemma_rfind_char(b@.subrange(0, pos as int), '\n');
    }
    let start = match text::rfind_char_exec(b.as_slice(), pos, '\n') {
        Some(k) => k + 1,
        None => 0,
    };
    let tail = text::copy_range(b.as_slice(), pos, n);
    assert(tail@ =~= b@.skip(pos as int));
    let nl = vec!['\n'];
    assert(nl@ =~= seq!['\n']);
    proof {
        text::lemma_find_from_bounds(tail@, nl@, 0);
    }
    let end = match text::find_chars(tail.as_slice(), nl.as_slice(), 0) {
        Some(k) => pos + k,
        None => n,
    };
    let seg = text::copy_range(b.as_slice(), start, end);
    let line = text::trim_chars(seg.as_slice());
    if line.len() > 200 {
        let mut cut = text::copy_range(line.as_slice(), 0, 200);
        cut.push('.');
        cut.push('.');
        cut.push('.');
        assert(cut@ =~= line@.take(200) + seq!['.', '.', '.']);
        text::string_of(cut.as_slice())
    } else {
        text::string_of(line.as_slice())
    }
}

/// `o`, or `d` when it is absent.
pub open spec fn or_default(o: Option<Seq<char>>, d: Seq<char>) -> Seq<char> {
    match o {
        Some(v) => v,
        None => d,
    }
}

/// What a search for the lower-case query `q` finds in one markdown file:
/// none when a filter excludes it (another content type, a date before
/// `since`, no attendee containing the asked one, ignoring case) or when
/// neither its body nor its title contains `q` ignoring case; otherwise its
/// title, date, content type (`"meeting"` when unstated) and snippet.
pub open spec fn document_match(
    content: Seq<char>,
    q: Seq<char>,
    type_filter: Option<Seq<char>>,
    since: Option<Seq<char>>,
    attendee: Option<Seq<char>>,
) -> Option<(Seq<char>, Seq<char>, Seq<char>, Seq<char>)> {
    let (fm, body) = frontmatter_split(content);
    let title = or_default(field_value(fm, "title"@), Seq::empty());
    let date = or_default(field_value(fm, "date"@), Seq::empty());
    let ctype = or_default(field_value(fm, "type"@), "meeting"@);
    if type_filter is Some && ctype != type_filter->0 {
        None
    } else if since is Some && text::seq_lt(date, since->0) {
        None
    } else if attendee is Some && !text::contains(
        text::lowercase(or_default(field_value(fm, "attendees"@), Seq::empty())),
        text::lowercase(attendee->0),
    ) {
        None
    } else if text::contains(text::lowercase(body), q) || text::contains(text::lowercase(title), q) {
        Some((title, date, ctype, snippet_of(body, q)))
    } else {
        None
    }
}

fn or_default_string(o: Option<String>, d: &str) -> (r: String)
    ensures
        r@ == or_default(text::opt_string(o), d@),
{
    match o {
        Some(v) => v,
        None => d.to_owned(),
    }
}

fn contains_lower(hay: &str, needle: &str) -> (r: bool)
    ensures
        r == text::contains(text::lowercase(hay@), text::lowercase(needle@)),
{
    let h = text::chars_of(hay);
    let n = text::chars_of(needle);
    let hl = text::to_lowercase_chars(h.as_slice());
    let nl = text::to_lowercase_chars(n.as_slice());
    text::find_chars(hl.as_slice(), nl.as_slice(), 0).is_some()
}

fn contains_in_lower(hay: &str, q: &str) -> (r: bool)
    ensures
        r == text::contains(text::lowercase(hay@), q@),
{
    let h = text::chars_of(hay);
    let n = text::chars_of(q);
    let hl = text::to_lowercase_chars(h.as_slice());
    text::find_chars(hl.as_slice(), n.as_slice(), 0).is_some()
}

/// `document_match` for the file at `path` with text `content`, as a
/// result; `query` is expected in lower case.
pub fn match_document(path: &str, content: &str, query: &str, filters: &SearchFilters) -> (r:
    Option<SearchResult>)
    ensures
        match r {
            Some(res) => res.path@ == path@ && document_match(
                content@,
                query@,
                text::opt_string(filters.content_type),
                text::opt_string(filters.since),
                text::opt_string(filters.attendee),
            ) == Some((res.title@, res.date@, res.content_type@, res.snippet@)),
            None => document_match(
                content@,
                query@,
                text::opt_string(filters.content_type),
                text::opt_string(filters.since),
                text::opt_string(filters.attendee),
            ) is None,
        },
{
    let (fm, body) = split_frontmatter(content);
    let title = or_default_string(extract_field(fm.as_str(), "title"), "");
    let date = or_default_string(extract_field(fm.as_str(), "date"), "");
    let ctype = or_default_string(extract_field(fm.as_str(), "type"), "meeting");
    proof {
        reveal_strlit("");
    }
    assert(""@ =~= Seq::<char>::empty());
    match &filters.content_type {
        Some(t) => {
            if !text::chars_eq(text::chars_of(ctype.as_str()).as_slice(), text::chars_of(t.as_str()).as_slice()) {
                return None;
            }
        },
        None => {},
    }
    match &filters.since {
        Some(s) => {
            if text::chars_lt(text::chars_of(date.as_str()).as_slice(), text::chars_of(s.as_str()).as_slice()) {
                return None;
            }
        },
        None => {},
    }
    match &filters.attendee {
        Some(a) => {
            let attendees = or_default_string(extract_field(fm.as_str(), "attendees"), "");
            if !contains_lower(attendees.as_str(), a.as_str()) {
                return None;
            }
        },
        None => {},
    }
    if contains_in_lower(body.as_str(), query) || contains_in_lower(title.as_str(), query) {
        let snippet = extract_snippet(body.as_str(), query);
        Some(SearchResult { path: path.to_owned(), title, date, content_type: ctype, snippet })
    } else {
        None
    }
}

/// A search result as text: path, title, date, content type, snippet.
pub type ResultView = (Seq<char>, Seq<char>, Seq<char>, Seq<char>, Seq<char>);

/// The text of a search result.
pub open spec fn result_view(r: SearchResult) -> ResultView {
    (r.path@, r.title@, r.date@, r.content_type@, r.snippet@)
}

/// The texts of a list of search results.
pub open spec fn result_views(rs: Seq<SearchResult>) -> Seq<ResultView> {
    Seq::new(rs.len(), |i: int| result_view(rs[i]))
}

/// Where a stable newest-first insertion puts `x` into `s`: before the
/// first result with an earlier date.
pub open spec fn newer_pos(s: Seq<ResultView>, x: ResultView) -> nat
    decreases s.len(),
{
    if s.len() == 0 {
        0
    } else if text::seq_lt(s[0].2, x.2) {
        0
    } else {
        1 + newer_pos(s.drop_first(), x)
    }
}

/// `xs` stably sorted by date, newest first (`sort_by` with the dates
/// compared in reverse): results with equal dates keep their order.
pub open spec fn newest_first(xs: Seq<ResultView>) -> Seq<ResultView>
    decreases xs.len(),
{
    if xs.len() == 0 {
        Seq::empty()
    } else {
        let s = newest_first(xs.drop_last());
        s.insert(newer_pos(s, xs.last()) as int, xs.last())
    }
}

proof fn lemma_newer_pos_bound(s: Seq<ResultView>, x: ResultView)
    ensures
        newer_pos(s, x) <= s.len(),
    decreases s.len(),
{
    if s.len() > 0 && !text::seq_lt(s[0].2, x.2) {
        lemma_newer_pos_bound(s.drop_first(), x);
    }
}

fn insert_newest_first(sorted: &mut Vec<SearchResult>, x: SearchResult)
    ensures
        result_views(final(sorted)@) == result_views(old(sorted)@).insert(
            newer_pos(result_views(old(sorted)@), result_view(x)) as int,
            result_view(x),
        ),
{
    let ghost sv = result_views(sorted@);
    let ghost xv = result_view(x);
    let xd = text::chars_of(x.date.as_str());
    let mut i: usize = 0;
    assert(sv.skip(0) =~= sv);
    proof {
        lemma_newer_pos_bound(sv, xv);
    }
    while i < sorted.len()
        invariant
            i <= sorted@.len(),
            sv == result_views(sorted@),
            xd@ == xv.2,
            newer_pos(sv, xv) == i + newer_pos(sv.skip(i as int), xv),
        ensures
            i <= sorted@.len(),
            sv == result_views(sorted@),
            newer_pos(sv, xv) == i,
        decreases sorted@.len() - i,
    {
        let d = text::chars_of(sorted[i].date.as_str());
        assert(sv.skip(i as int)[0] == sv[i as int]);
        if text::chars_lt(d.as_slice(), xd.as_slice()) {
            break;
        }
        assert(sv.skip(i as int).drop_first() =~= sv.skip(i + 1));
        i = i + 1;
        if i == sorted.len() {
            assert(sv.skip(i as int) =~= Seq::<ResultView>::empty());
        }
    }
    sorted.insert(i, x);
    assert(result_views(sorted@) =~= sv.insert(i as int, xv));
}

/// Sorts results stably by date, newest first.
pub fn sort_newest_first(results: Vec<SearchResult>) -> (r: Vec<SearchResult>)
    ensures
        result_views(r@) == newest_first(result_views(results@)),
{
    let ghost av = result_views(results@);
    let n = results.len();
    let mut rest = results;
    let mut sorted: Vec<SearchResult> = Vec::new();
    let mut k: usize = 0;
    assert(av.take(0) =~= Seq::<ResultView>::empty());
    assert(result_views(sorted@) =~= Seq::<ResultView>::empty());
    while k < n
        invariant
            n == av.len(),
            k <= n,
            rest@.len() == n - k,
            forall|j: int| 0 <= j < rest@.len() ==> result_view(#[trigger] rest@[j]) == av[k + j],
            result_views(sorted@) == newest_first(av.take(k as int)),
        decreases n - k,
    {
        let x = rest.remove(0);
        assert(result_view(x) == av[k as int]);
        assert(av.take(k + 1).drop_last() =~= av.take(k as int));
        insert_newest_first(&mut sorted, x);
        k = k + 1;
    }
    assert(av.take(n as int) =~= av);
    sorted
}

/// The results found in `docs` (path and text of each file, in the order
/// the directory walk gave them) for the lower-case query `q`, in that
/// order.
pub open spec fn doc_results(
    docs: Seq<(Seq<char>, Seq<char>)>,
    q: Seq<char>,
    type_filter: Option<Seq<char>>,
    since: Option<Seq<char>>,
    attendee: Option<Seq<char>>,
) -> Seq<ResultView>
    decreases docs.len(),
{
    if docs.len() == 0 {
        Seq::empty()
    } else {
        let prev = doc_results(docs.drop_last(), q, type_filter, since, attendee);
        match document_match(docs.last().1, q, type_filter, since, attendee) {
            Some((t, d, c, s)) => prev.push((docs.last().0, t, d, c, s)),
            None => prev,
        }
    }
}

/// The texts of a list of (path, content) pairs.
pub open spec fn doc_views(docs: Seq<(String, String)>) -> Seq<(Seq<char>, Seq<char>)> {
    Seq::new(docs.len(), |i: int| (docs[i].0@, docs[i].1@))
}

/// Searches the markdown files `docs` (path and text of each) for `query`
/// ignoring case: the matches, newest first.
pub fn search_documents(docs: &Vec<(String, String)>, query: &str, filters: &SearchFilters) -> (r:
    Vec<SearchResult>)
    ensures
        result_views(r@) == newest_first(
            doc_results(
                doc_views(docs@),
                text::lowercase(query@),
                text::opt_string(filters.content_type),
                text::opt_string(filters.since),
                text::opt_string(filters.attendee),
            ),
        ),
{
    let qc = text::chars_of(query);
    let ql = text::to_lowercase_chars(qc.as_slice());
    let q = text::string_of(ql.as_slice());
    let ghost dv = doc_views(docs@);
    let ghost ft = text::opt_string(filters.content_type);
    let ghost si = text::opt_string(filters.since);
    let ghost at = text::opt_string(filters.attendee);
    let mut found: Vec<SearchResult> = Vec::new();
    let mut i: usize = 0;
    assert(dv.take(0) =~= Seq::<(Seq<char>, Seq<char>)>::empty());
    assert(result_views(found@) =~= Seq::<ResultView>::empty());
    while i < docs.len()
        invariant
            i <= docs@.len(),
            dv == doc_views(docs@),
            q@ == text::lowercase(query@),
            ft == text::opt_string(filters.content_type),
            si == text::opt_string(filters.since),
            at == text::opt_string(filters.attendee),
            result_views(found@) == doc_results(dv.take(i as int), q@, ft, si, at),
        decreases docs@.len() - i,
    {
        assert(dv.take(i + 1).drop_last() =~= dv.take(i as int));
        assert(dv.take(i + 1).last() == (docs@[i as int].0@, docs@[i as int].1@));
        let ghost before = result_views(found@);
        match match_document(docs[i].0.as_str(), docs[i].1.as_str(), q.as_str(), filters) {
            Some(res) => {
                found.push(res);
                assert(result_views(found@) =~= before.push(result_view(res)));
            },
            None => {},
        }
        i = i + 1;
    }
    assert(dv.take(docs@.len() as int) =~= dv);
    sort_newest_first(found)
}

/// Whether results are ordered newest first: no result has an earlier
/// date than one after it.
pub open spec fn dates_newest_first(s: Seq<ResultView>) -> bool {
    forall|i: int, j: int| 0 <= i < j < s.len() ==> !text::seq_lt(s[i].2, s[j].2)
}

proof fn lemma_newer_pos_split(s: Seq<ResultView>, x: ResultView)
    requires
        dates_newest_first(s),
    ensures
        newer_pos(s, x) <= s.len(),
        forall|k: int| 0 <= k < newer_pos(s, x) ==> !text::seq_lt(s[k].2, x.2),
        forall|k: int| newer_pos(s, x) <= k < s.len() ==> text::seq_lt(s[k].2, x.2),
    decreases s.len(),
{
    if s.len() > 0 {
        if text::seq_lt(s[0].2, x.2) {
            assert forall|k: int| 0 <= k < s.len() implies text::seq_lt(s[k].2, x.2) by {
                if k > 0 {
                    if s[k].2 != s[0].2 {
                        text::lemma_seq_lt_total(s[k].2, s[0].2);
                        text::lemma_seq_lt_transitive(s[k].2, s[0].2, x.2);
                    }
                }
            }
        } else {
            let r = s.drop_first();
            assert(dates_newest_first(r)) by {
                assert forall|i: int, j: int| 0 <= i < j < r.len() implies !text::seq_lt(r[i].2, r[j].2) by {
                    assert(r[i] == s[i + 1] && r[j] == s[j + 1]);
                }
            }
            lemma_newer_pos_split(r, x);
            assert forall|k: int| 0 <= k < newer_pos(s, x) implies !text::seq_lt(s[k].2, x.2) by {
                if k > 0 {
                    assert(s[k] == r[k - 1]);
                }
            }
            assert forall|k: int| newer_pos(s, x) <= k < s.len() implies text::seq_lt(s[k].2, x.2) by {
                assert(s[k] == r[k - 1]);
            }
        }
    }
}

/// Search results come newest first: whatever the files and their order,
/// no listed result is dated earlier than one listed after it, and as
/// many results are listed as matched.
pub proof fn search_results_are_newest_first(xs: Seq<ResultView>)
    ensures
        dates_newest_first(newest_first(xs)),
        newest_first(xs).len() == xs.len(),
    decreases xs.len(),
{
    if xs.len() > 0 {
        let s = newest_first(xs.drop_last());
        search_results_are_newest_first(xs.drop_last());
        let x = xs.last();
        let p = newer_pos(s, x);
        lemma_newer_pos_split(s, x);
        let r = s.insert(p as int, x);
        assert forall|i: int, j: int| 0 <= i < j < r.len() implies !text::seq_lt(r[i].2, r[j].2) by {
            if j < p {
                assert(r[i] == s[i] && r[j] == s[j]);
            } else if j == p {
                assert(r[j] == x && r[i] == s[i]);
            } else if i < p {
                assert(r[i] == s[i] && r[j] == s[j - 1]);
            } else if i == p {
                assert(r[i] == x && r[j] == s[j - 1]);
                text::lemma_seq_lt_asymmetric(s[j - 1].2, x.2);
            } else {
                assert(r[i] == s[i - 1] && r[j] == s[j - 1]);
            }
        }
    }
}

/// Whether a document's front matter `fm` passes the search filters: its
/// type (`meeting` when unset) is the one asked for, its date is not before
/// `since`, and its attendees mention the attendee asked for (ignoring
/// case).
pub open spec fn passes_filters(
    fm: Seq<char>,
    type_filter: Option<Seq<char>>,
    since: Option<Seq<char>>,
    attendee: Option<Seq<char>>,
) -> bool {
    &&& type_filter matches Some(f) ==> or_default(field_value(fm, "type"@), "meeting"@) == f
    &&& since matches Some(d) ==> !text::seq_lt(or_default(field_value(fm, "date"@), Seq::empty()), d)
    &&& attendee matches Some(a) ==> text::contains(
        text::lowercase(or_default(field_value(fm, "attendees"@), Seq::empty())),
        text::lowercase(a),
    )
}

/// A meeting is found by its title: a document that passes the filters and
/// whose front-matter title contains the query (the title lowercased; the
/// query is given in lower case) matches, with that title, whatever its
/// body says.
pub proof fn title_matches_are_found(
    content: Seq<char>,
    q: Seq<char>,
    type_filter: Option<Seq<char>>,
    since: Option<Seq<char>>,
    attendee: Option<Seq<char>>,
)
    requires
        field_value(frontmatter_split(content).0, "title"@) matches Some(t) && text::contains(
            text::lowercase(t),
            q,
        ),
        passes_filters(frontmatter_split(content).0, type_filter, since, attendee),
    ensures
        document_match(content, q, type_filter, since, attendee) matches Some(r) && r.0 == field_value(
            frontmatter_split(content).0,
            "title"@,
        )->0,
{
}

proof fn lemma_newest_first_keeps(xs: Seq<ResultView>, x: ResultView)
    requires
        xs.contains(x),
    ensures
        newest_first(xs).contains(x),
    decreases xs.len(),
{
    let s = newest_first(xs.drop_last());
    let p = newer_pos(s, xs.last());
    lemma_newer_pos_bound(s, xs.last());
    let r = s.insert(p as int, xs.last());
    if x == xs.last() {
        assert(r[p as int] == x);
    } else {
        let k = choose|k: int| 0 <= k < xs.len() && xs[k] == x;
        assert(xs.drop_last()[k] == x);
        lemma_newest_first_keeps(xs.drop_last(), x);
        let m = choose|m: int| 0 <= m < s.len() && s[m] == x;
        if m < p {
            assert(r[m] == x);
        } else {
            assert(r[m + 1] == x);
        }
    }
}

proof fn lemma_title_match_in_results(
    docs: Seq<(Seq<char>, Seq<char>)>,
    k: int,
    q: Seq<char>,
    type_filter: Option<Seq<char>>,
    since: Option<Seq<char>>,
    attendee: Option<Seq<char>>,
)
    requires
        0 <= k < docs.len(),
        document_match(docs[k].1, q, type_filter, since, attendee) is Some,
    ensures
        exists|m: int|
            0 <= m < doc_results(docs, q, type_filter, since, attendee).len() && (#[trigger] doc_results(
                docs,
                q,
                type_filter,
                since,
                attendee,
            )[m]).0 == docs[k].0 && doc_results(docs, q, type_filter, since, attendee)[m].1 == (document_match(
                docs[k].1,
                q,
                type_filter,
                since,
                attendee,
            )->0).0,
    decreases docs.len(),
{
    let prev = doc_results(docs.drop_last(), q, type_filter, since, attendee);
    let all = doc_results(docs, q, type_filter, since, attendee);
    if k == docs.len() - 1 {
        assert(all[prev.len() as int] == all.last());
    } else {
        assert(docs.drop_last()[k] == docs[k]);
        lemma_title_match_in_results(docs.drop_last(), k, q, type_filter, since, attendee);
        let m = choose|m: int| 0 <= m < prev.len() && (#[trigger] prev[m]).0 == docs[k].0 && prev[m].1
            == (document_match(docs[k].1, q, type_filter, since, attendee)->0).0;
        assert(all[m] == prev[m]);
    }
}

/// A search returns every meeting whose title contains the query: among
/// the documents searched, one that passes the filters and whose
/// front-matter title contains the query (ignoring case) is in the
/// results, under its path and title, even when its body does not mention
/// the query.
pub proof fn title_matches_are_returned(
    docs: Seq<(Seq<char>, Seq<char>)>,
    k: int,
    q: Seq<char>,
    type_filter: Option<Seq<char>>,
    since: Option<Seq<char>>,
    attendee: Option<Seq<char>>,
)
    requires
        0 <= k < docs.len(),
        field_value(frontmatter_split(docs[k].1).0, "title"@) matches Some(t) && text::contains(
            text::lowercase(t),
            q,
        ),
        passes_filters(frontmatter_split(docs[k].1).0, type_filter, since, attendee),
    ensures
        exists|m: int|
            0 <= m < newest_first(doc_results(docs, q, type_filter, since, attendee)).len() && (
            #[trigger] newest_first(doc_results(docs, q, type_filter, since, attendee))[m]).0 == docs[k].0
                && newest_first(doc_results(docs, q, type_filter, since, attendee))[m].1 == field_value(
                frontmatter_split(docs[k].1).0,
                "title"@,
            )->0,
{
    title_matches_are_found(docs[k].1, q, type_filter, since, attendee);
    lemma_title_match_in_results(docs, k, q, type_filter, since, attendee);
    let all = doc_results(docs, q, type_filter, since, attendee);
    let m = choose|m: int| 0 <= m < all.len() && (#[trigger] all[m]).0 == docs[k].0 && all[m].1
        == (document_match(docs[k].1, q, type_filter, since, attendee)->0).0;
    assert(all.contains(all[m]));
    lemma_newest_first_keeps(all, all[m]);
    let sorted = newest_first(all);
    let n = choose|n: int| 0 <= n < sorted.len() && sorted[n] == all[m];
    assert(sorted[n].0 == docs[k].0);
}

} // verus!

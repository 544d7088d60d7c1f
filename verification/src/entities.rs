//! Entity links of a meeting: the people (attendees, assignees, actors)
//! and projects (decision topics, context, title, tags) it mentions, each
//! under a slug with a display label and the aliases it was seen as.
//! Entries are kept ordered by slug and aliases ordered, as in an ordered
//! map.

use crate::intents::{self, ActionItem, Decision, Intent};
use crate::text::{
    self, chars_eq, chars_lt, chars_of, copy_range, eq_ignore_ascii_case_exec, eq_lit,
    is_alphanumeric, join_chars, keep_non_empty, lit_chars, normalize_space_chars, split_on,
    split_whitespace, string_of, strings_of, to_lowercase_chars, trim_chars,
};
use crate::title::{self, capitalize_chars};
use vstd::prelude::*;

verus! {

/// An entity mention.
#[derive(Debug, PartialEq, Eq)]
pub struct EntityRef {
    pub slug: String,
    pub label: String,
    pub aliases: Vec<String>,
}

/// The people and projects of a meeting.
#[derive(Debug, PartialEq, Eq)]
pub struct EntityLinks {
    pub people: Vec<EntityRef>,
    pub projects: Vec<EntityRef>,
}

/// An entity as (slug, label, aliases).
pub type EntityEntry = (Seq<char>, Seq<char>, Seq<Seq<char>>);

/// `x` added to the ordered set `s` (no change if present).
pub open spec fn set_insert(s: Seq<Seq<char>>, x: Seq<char>) -> Seq<Seq<char>>
    decreases s.len(),
{
    if s.len() == 0 {
        seq![x]
    } else if s[0] == x {
        s
    } else if text::seq_lt(x, s[0]) {
        seq![x] + s
    } else {
        seq![s[0]] + set_insert(s.drop_first(), x)
    }
}

/// `m` with `alias` recorded for `slug`; a new entry labelled `label` is
/// created when the slug is new (the label of an existing entry is kept).
pub open spec fn entry_insert(
    m: Seq<EntityEntry>,
    slug: Seq<char>,
    label: Seq<char>,
    alias: Seq<char>,
) -> Seq<EntityEntry>
    decreases m.len(),
{
    if m.len() == 0 {
        seq![(slug, label, seq![alias])]
    } else if m[0].0 == slug {
        seq![(m[0].0, m[0].1, set_insert(m[0].2, alias))] + m.drop_first()
    } else if text::seq_lt(slug, m[0].0) {
        seq![(slug, label, seq![alias])] + m
    } else {
        seq![m[0]] + entry_insert(m.drop_first(), slug, label, alias)
    }
}

/// The executable form of an entry.
pub type ExecEntityEntry = (Vec<char>, Vec<char>, Vec<Vec<char>>);

/// The view of an executable entry.
pub open spec fn entity_view(e: ExecEntityEntry) -> EntityEntry {
    (e.0@, e.1@, text::views(e.2@))
}

/// The views of executable entries.
pub open spec fn entity_views(v: Seq<ExecEntityEntry>) -> Seq<EntityEntry> {
    Seq::new(v.len(), |i: int| entity_view(v[i]))
}

/// Inserts `x` into the ordered set `s`.
fn set_insert_exec(s: &mut Vec<Vec<char>>, x: Vec<char>)
    ensures
        text::views(final(s)@) == set_insert(text::views(old(s)@), x@),
{
    let ghost sv = text::views(s@);
    let mut i: usize = 0;
    assert(sv.skip(0) =~= sv);
    assert(sv.take(0) + set_insert(sv.skip(0), x@) =~= set_insert(sv, x@));
    while i < s.len()
        invariant
            i <= s@.len(),
            sv == text::views(s@),
            sv == text::views(old(s)@),
            set_insert(sv, x@) == sv.take(i as int) + set_insert(sv.skip(i as int), x@),
        decreases s@.len() - i,
    {
        assert(sv.skip(i as int)[0] == s@[i as int]@);
        if chars_eq(s[i].as_slice(), x.as_slice()) {
            assert(set_insert(sv.skip(i as int), x@) == sv.skip(i as int));
            assert(sv.take(i as int) + sv.skip(i as int) =~= sv);
            return;
        }
        if chars_lt(x.as_slice(), s[i].as_slice()) {
            assert(set_insert(sv.skip(i as int), x@) == seq![x@] + sv.skip(i as int));
            s.insert(i, x);
            assert(text::views(s@) =~= sv.take(i as int) + (seq![x@] + sv.skip(i as int)));
            return;
        }
        assert(sv.skip(i as int).drop_first() =~= sv.skip(i + 1));
        assert(sv.take(i + 1) =~= sv.take(i as int) + seq![sv[i as int]]);
        i = i + 1;
    }
    let ghost xv = x@;
    assert(sv.skip(i as int) =~= Seq::<Seq<char>>::empty());
    assert(set_insert(sv.skip(i as int), xv) == seq![xv]);
    s.push(x);
    assert(text::views(s@) =~= sv.take(i as int) + seq![xv]);
}

/// Records `alias` for `slug` in the ordered entries `m`.
fn entry_insert_exec(m: &mut Vec<ExecEntityEntry>, slug: &[char], label: &[char], alias: Vec<char>)
    ensures
        entity_views(final(m)@) == entry_insert(entity_views(old(m)@), slug@, label@, alias@),
{
    let ghost mv = entity_views(m@);
    let ghost av = alias@;
    let mut i: usize = 0;
    assert(mv.skip(0) =~= mv);
    assert(mv.take(0) + entry_insert(mv.skip(0), slug@, label@, av) =~= entry_insert(
        mv,
        slug@,
        label@,
        av,
    ));
    while i < m.len()
        invariant
            i <= m@.len(),
            mv == entity_views(m@),
            mv == entity_views(old(m)@),
            av == alias@,
            entry_insert(mv, slug@, label@, av) == mv.take(i as int) + entry_insert(
                mv.skip(i as int),
                slug@,
                label@,
                av,
            ),
        decreases m@.len() - i,
    {
        assert(mv.skip(i as int)[0] == entity_view(m@[i as int]));
        if chars_eq(m[i].0.as_slice(), slug) {
            let ghost cur = mv.skip(i as int);
            assert(entry_insert(cur, slug@, label@, av) == seq![
                (cur[0].0, cur[0].1, set_insert(cur[0].2, av)),
            ] + cur.drop_first());
            let (s0, l0, mut al) = m.remove(i);
            let ghost old_al = text::views(al@);
            set_insert_exec(&mut al, alias);
            let ghost new_entry = (s0@, l0@, text::views(al@));
            m.insert(i, (s0, l0, al));
            assert(entity_views(m@) =~= mv.take(i as int) + (seq![new_entry] + mv.skip(
                i as int,
            ).drop_first()));
            return;
        }
        if chars_lt(slug, m[i].0.as_slice()) {
            assert(entry_insert(mv.skip(i as int), slug@, label@, av) == seq![
                (slug@, label@, seq![av]),
            ] + mv.skip(i as int));
            let mut al: Vec<Vec<char>> = Vec::new();
            al.push(alias);
            assert(text::views(al@) =~= seq![av]);
            let e = (copy_range(slug, 0, slug.len()), copy_range(label, 0, label.len()), al);
            assert(slug@.subrange(0, slug@.len() as int) =~= slug@);
            assert(label@.subrange(0, label@.len() as int) =~= label@);
            m.insert(i, e);
            assert(entity_views(m@) =~= mv.take(i as int) + (seq![(slug@, label@, seq![av])]
                + mv.skip(i as int)));
            return;
        }
        assert(mv.skip(i as int).drop_first() =~= mv.skip(i + 1));
        assert(mv.take(i + 1) =~= mv.take(i as int) + seq![mv[i as int]]);
        i = i + 1;
    }
    let mut al: Vec<Vec<char>> = Vec::new();
    al.push(alias);
    assert(text::views(al@) =~= seq![av]);
    let e = (copy_range(slug, 0, slug.len()), copy_range(label, 0, label.len()), al);
    assert(slug@.subrange(0, slug@.len() as int) =~= slug@);
    assert(label@.subrange(0, label@.len() as int) =~= label@);
    assert(mv.skip(i as int) =~= Seq::<EntityEntry>::empty());
    assert(entry_insert(mv.skip(i as int), slug@, label@, av) == seq![(slug@, label@, seq![av])]);
    m.push(e);
    assert(entity_views(m@) =~= mv.take(i as int) + seq![(slug@, label@, seq![av])]);
}

/// The slug character for `c`: kept when alphanumeric, else a hyphen.
pub open spec fn slug_char(c: char) -> char {
    if text::char_alphanumeric(c) {
        c
    } else {
        '-'
    }
}

/// A slug: the lowercased text with non-alphanumeric runs collapsed into
/// single hyphens and no leading or trailing hyphen.
pub open spec fn slugified(t: Seq<char>) -> Seq<char> {
    let l = text::lowercase(t);
    text::join(
        text::non_empty(text::split_set(Seq::new(l.len(), |i: int| slug_char(l[i])), seq!['-'])),
        seq!['-'],
    )
}

/// `slugified` on characters.
pub(crate) fn slugify_chars(t: &[char]) -> (r: Vec<char>)
    ensures
        r@ == slugified(t@),
{
    let l = to_lowercase_chars(t);
    let mut mapped: Vec<char> = Vec::new();
    let mut i: usize = 0;
    while i < l.len()
        invariant
            i <= l@.len(),
            mapped@ =~= Seq::new(i as nat, |k: int| slug_char(l@[k])),
        decreases l@.len() - i,
    {
        if is_alphanumeric(l[i]) {
            mapped.push(l[i]);
        } else {
            mapped.push('-');
        }
        i = i + 1;
    }
    let dash = vec!['-'];
    assert(dash@ =~= seq!['-']);
    let parts = keep_non_empty(split_on(mapped.as_slice(), dash.as_slice()));
    join_chars(&parts, dash.as_slice())
}

/// A slug for `text`: lowercase, alphanumeric runs joined by hyphens.
pub fn slugify(text: &str) -> (r: String)
    ensures
        r@ == slugified(text@),
{
    string_of(slugify_chars(chars_of(text).as_slice()).as_slice())
}

/// A token lowercased with its first character uppercased.
pub fn capitalize_token(token: &str) -> (r: String)
    ensures
        r@ == title::capitalized(text::lowercase(token@)),
{
    let l = to_lowercase_chars(chars_of(token).as_slice());
    string_of(capitalize_chars(l.as_slice()).as_slice())
}

/// The display label of a name: each word capitalized, joined by spaces.
pub open spec fn label_of(t: Seq<char>) -> Seq<char> {
    let ws = text::words(t);
    text::join(
        Seq::new(ws.len(), |i: int| title::capitalized(text::lowercase(ws[i]))),
        seq![' '],
    )
}

/// Executable `label_of`.
fn label_chars(t: &[char]) -> (r: Vec<char>)
    ensures
        r@ == label_of(t@),
{
    let ws = split_whitespace(t);
    let ghost wv = text::views(ws@);
    let mut out: Vec<Vec<char>> = Vec::new();
    let mut i: usize = 0;
    while i < ws.len()
        invariant
            i <= ws@.len(),
            wv == text::views(ws@),
            text::views(out@) =~= Seq::new(
                i as nat,
                |k: int| title::capitalized(text::lowercase(wv[k])),
            ),
        decreases ws@.len() - i,
    {
        let ghost before = text::views(out@);
        let l = to_lowercase_chars(ws[i].as_slice());
        out.push(capitalize_chars(l.as_slice()));
        assert(text::views(out@) =~= before.push(
            title::capitalized(text::lowercase(wv[i as int])),
        ));
        i = i + 1;
    }
    let sp = vec![' '];
    assert(sp@ =~= seq![' ']);
    join_chars(&out, sp.as_slice())
}

/// Whether `c` is not alphanumeric.
pub open spec fn not_alnum() -> spec_fn(char) -> bool {
    |c: char| !text::char_alphanumeric(c)
}

/// Words dropped from project topics.
pub open spec fn is_entity_stopword(w: Seq<char>) -> bool {
    ||| w == "a"@
    ||| w == "an"@
    ||| w == "and"@
    ||| w == "as"@
    ||| w == "at"@
    ||| w == "by"@
    ||| w == "for"@
    ||| w == "from"@
    ||| w == "in"@
    ||| w == "of"@
    ||| w == "on"@
    ||| w == "or"@
    ||| w == "the"@
    ||| w == "to"@
    ||| w == "with"@
    ||| w == "we"@
    ||| w == "should"@
    ||| w == "will"@
    ||| w == "be"@
    ||| w == "is"@
    ||| w == "are"@
    ||| w == "use"@
    ||| w == "using"@
}

/// The meaningful words of `ws`: each stripped of surrounding
/// non-alphanumeric characters, empty ones and stopwords dropped.
pub open spec fn topic_terms(ws: Seq<Seq<char>>) -> Seq<Seq<char>>
    decreases ws.len(),
{
    if ws.len() == 0 {
        Seq::empty()
    } else {
        let w = text::trim_by(ws.last(), not_alnum());
        if w.len() == 0 || is_entity_stopword(text::lowercase(w)) {
            topic_terms(ws.drop_last())
        } else {
            topic_terms(ws.drop_last()).push(w)
        }
    }
}

/// A project topic: the first four meaningful words, lowercased.
pub open spec fn entity_topic(t: Seq<char>) -> Seq<char> {
    let ws = intents::first_four(topic_terms(text::words(t)));
    text::join(Seq::new(ws.len(), |i: int| text::lowercase(ws[i])), seq![' '])
}

/// Executable `text::trim_by(s, not_alnum())`.
fn trim_non_alnum(s: &[char]) -> (r: Vec<char>)
    ensures
        r@ == text::trim_by(s@, not_alnum()),
{
    let ghost p = not_alnum();
    let mut i: usize = 0;
    assert(s@.subrange(0, s@.len() as int) == s@);
    while i < s.len() && !is_alphanumeric(s[i])
        invariant
            i <= s@.len(),
            p == not_alnum(),
            text::trim_start_by(s@, p) == text::trim_start_by(
                s@.subrange(i as int, s@.len() as int),
                p,
            ),
        decreases s@.len() - i,
    {
        assert(p(s@[i as int]));
        assert(s@.subrange(i as int, s@.len() as int).drop_first() == s@.subrange(
            i + 1,
            s@.len() as int,
        ));
        i = i + 1;
    }
    let mut j: usize = s.len();
    while j > i && !is_alphanumeric(s[j - 1])
        invariant
            i <= j <= s@.len(),
            p == not_alnum(),
            text::trim_end_by(s@.subrange(i as int, s@.len() as int), p) == text::trim_end_by(
                s@.subrange(i as int, j as int),
                p,
            ),
        decreases j,
    {
        assert(p(s@[j - 1]));
        assert(s@.subrange(i as int, j as int).drop_last() == s@.subrange(i as int, j - 1));
        j = j - 1;
    }
    copy_range(s, i, j)
}

/// Executable `is_entity_stopword`.
fn is_entity_stopword_exec(w: &[char]) -> (r: bool)
    ensures
        r == is_entity_stopword(w@),
{
    eq_lit(w, "a") || eq_lit(w, "an") || eq_lit(w, "and") || eq_lit(w, "as") || eq_lit(w, "at")
        || eq_lit(w, "by") || eq_lit(w, "for") || eq_lit(w, "from") || eq_lit(w, "in") || eq_lit(
        w,
        "of",
    ) || eq_lit(w, "on") || eq_lit(w, "or") || eq_lit(w, "the") || eq_lit(w, "to") || eq_lit(
        w,
        "with",
    ) || eq_lit(w, "we") || eq_lit(w, "should") || eq_lit(w, "will") || eq_lit(w, "be")
        || eq_lit(w, "is") || eq_lit(w, "are") || eq_lit(w, "use") || eq_lit(w, "using")
}

/// `entity_topic` on characters.
fn entity_topic_chars(t: &[char]) -> (r: Vec<char>)
    ensures
        r@ == entity_topic(t@),
{
    let ws = split_whitespace(t);
    let ghost wv = text::views(ws@);
    let mut kept: Vec<Vec<char>> = Vec::new();
    let mut i: usize = 0;
    assert(wv.take(0) =~= Seq::<Seq<char>>::empty());
    while i < ws.len()
        invariant
            i <= ws@.len(),
            wv == text::views(ws@),
            text::views(kept@) == topic_terms(wv.take(i as int)),
        decreases ws@.len() - i,
    {
        assert(wv.take(i + 1).drop_last() =~= wv.take(i as int));
        assert(wv.take(i + 1).last() == ws@[i as int]@);
        let w = trim_non_alnum(ws[i].as_slice());
        if w.len() > 0 {
            let l = to_lowercase_chars(w.as_slice());
            if !is_entity_stopword_exec(l.as_slice()) {
                let ghost before = text::views(kept@);
                let ghost wv2 = w@;
                kept.push(w);
                assert(text::views(kept@) =~= before.push(wv2));
            }
        }
        i = i + 1;
    }
    assert(wv.take(ws@.len() as int) =~= wv);
    if kept.len() > 4 {
        let ghost kv = text::views(kept@);
        kept.truncate(4);
        assert(text::views(kept@) =~= kv.take(4));
    }
    let ghost fv = text::views(kept@);
    let mut lowered: Vec<Vec<char>> = Vec::new();
    let mut k: usize = 0;
    while k < kept.len()
        invariant
            k <= kept@.len(),
            fv == text::views(kept@),
            text::views(lowered@) =~= Seq::new(k as nat, |j: int| text::lowercase(fv[j])),
        decreases kept@.len() - k,
    {
        let ghost before = text::views(lowered@);
        lowered.push(to_lowercase_chars(kept[k].as_slice()));
        assert(text::views(lowered@) =~= before.push(text::lowercase(fv[k as int])));
        k = k + 1;
    }
    let sp = vec![' '];
    assert(sp@ =~= seq![' ']);
    join_chars(&lowered, sp.as_slice())
}

/// A project topic for `text`: its first four words that are not
/// stopwords, stripped of punctuation and lowercased.
pub fn normalize_entity_topic(text: &str) -> (r: String)
    ensures
        r@ == entity_topic(text@),
{
    string_of(entity_topic_chars(chars_of(text).as_slice()).as_slice())
}

/// `'@'`.
pub open spec fn at_sign() -> spec_fn(char) -> bool {
    |c: char| c == '@'
}

/// A person mention without surrounding whitespace and leading `@`s.
pub open spec fn person_name(raw: Seq<char>) -> Seq<char> {
    text::trim(text::trim_start_by(text::trim(raw), at_sign()))
}

/// `m` with the person mention `raw` recorded (ignored when empty,
/// "unassigned", or without a slug).
pub open spec fn add_person(m: Seq<EntityEntry>, raw: Seq<char>) -> Seq<EntityEntry> {
    let t = person_name(raw);
    if t.len() == 0 || text::eq_ignore_ascii_case(t, "unassigned"@) {
        m
    } else {
        let label = label_of(t);
        let slug = slugified(label);
        if slug.len() == 0 {
            m
        } else {
            let m1 = entry_insert(m, slug, label, text::lowercase(t));
            if text::trim(raw) != t {
                entry_insert(m1, slug, label, text::lowercase(text::trim(raw)))
            } else {
                m1
            }
        }
    }
}

/// Project topics that say nothing.
pub open spec fn is_generic_project(n: Seq<char>) -> bool {
    ||| n == "untitled recording"@
    ||| n == "follow up"@
    ||| n == "another follow up"@
    ||| n == "voice memo"@
    ||| n == "meeting"@
    ||| n == "recording"@
}

/// `m` with the project mention `raw` recorded, with the alias source's
/// normalized text as an extra alias (ignored when the topic is empty,
/// generic, or without a slug).
pub open spec fn add_project(
    m: Seq<EntityEntry>,
    raw: Seq<char>,
    alias_source: Option<Seq<char>>,
) -> Seq<EntityEntry> {
    let n = entity_topic(raw);
    if n.len() == 0 || is_generic_project(n) {
        m
    } else {
        let label = label_of(n);
        let slug = slugified(label);
        if slug.len() == 0 {
            m
        } else {
            let m1 = entry_insert(m, slug, label, n);
            match alias_source {
                Some(a) => {
                    let c = text::space_normalized(a);
                    if c.len() > 0 {
                        entry_insert(m1, slug, label, text::lowercase(c))
                    } else {
                        m1
                    }
                },
                None => m1,
            }
        }
    }
}

/// Executable `person_name`.
fn person_name_chars(raw: &[char]) -> (r: Vec<char>)
    ensures
        r@ == person_name(raw@),
{
    let t = trim_chars(raw);
    let mut i: usize = 0;
    assert(t@.subrange(0, t@.len() as int) == t@);
    while i < t.len() && t[i] == '@'
        invariant
            i <= t@.len(),
            text::trim_start_by(t@, at_sign()) == text::trim_start_by(
                t@.subrange(i as int, t@.len() as int),
                at_sign(),
            ),
        decreases t@.len() - i,
    {
        assert(at_sign()(t@[i as int]));
        assert(t@.subrange(i as int, t@.len() as int).drop_first() == t@.subrange(
            i + 1,
            t@.len() as int,
        ));
        i = i + 1;
    }
    trim_chars(copy_range(t.as_slice(), i, t.len()).as_slice())
}

/// Records a person mention in `m`.
fn add_person_entity(m: &mut Vec<ExecEntityEntry>, raw: &[char])
    ensures
        entity_views(final(m)@) == add_person(entity_views(old(m)@), raw@),
{
    let t = person_name_chars(raw);
    let unassigned = lit_chars("unassigned");
    if t.len() == 0 || eq_ignore_ascii_case_exec(t.as_slice(), unassigned.as_slice()) {
        return;
    }
    let label = label_chars(t.as_slice());
    let slug = slugify_chars(label.as_slice());
    if slug.len() == 0 {
        return;
    }
    let lower = to_lowercase_chars(t.as_slice());
    entry_insert_exec(m, slug.as_slice(), label.as_slice(), lower);
    let raw_trimmed = trim_chars(raw);
    if !chars_eq(raw_trimmed.as_slice(), t.as_slice()) {
        let lower_raw = to_lowercase_chars(raw_trimmed.as_slice());
        entry_insert_exec(m, slug.as_slice(), label.as_slice(), lower_raw);
    }
}

/// Executable `is_generic_project`.
fn is_generic_project_exec(n: &[char]) -> (r: bool)
    ensures
        r == is_generic_project(n@),
{
    eq_lit(n, "untitled recording") || eq_lit(n, "follow up") || eq_lit(n, "another follow up")
        || eq_lit(n, "voice memo") || eq_lit(n, "meeting") || eq_lit(n, "recording")
}

/// Records a project mention in `m`.
fn add_project_entity(m: &mut Vec<ExecEntityEntry>, raw: &[char], alias_source: Option<&[char]>)
    ensures
        entity_views(final(m)@) == add_project(
            entity_views(old(m)@),
            raw@,
            match alias_source {
                Some(a) => Some(a@),
                None => None,
            },
        ),
{
    let n = entity_topic_chars(raw);
    if n.len() == 0 || is_generic_project_exec(n.as_slice()) {
        return;
    }
    let label = label_chars(n.as_slice());
    let slug = slugify_chars(label.as_slice());
    if slug.len() == 0 {
        return;
    }
    let nv = copy_range(n.as_slice(), 0, n.len());
    assert(n@.subrange(0, n@.len() as int) =~= n@);
    entry_insert_exec(m, slug.as_slice(), label.as_slice(), nv);
    match alias_source {
        Some(a) => {
            let c = normalize_space_chars(a);
            if c.len() > 0 {
                entry_insert_exec(m, slug.as_slice(), label.as_slice(), to_lowercase_chars(c.as_slice()));
            }
        },
        None => {},
    }
}

/// `m` with each person mention of `names` recorded, in order.
pub open spec fn add_people(m: Seq<EntityEntry>, names: Seq<Seq<char>>) -> Seq<EntityEntry>
    decreases names.len(),
{
    if names.len() == 0 {
        m
    } else {
        add_person(add_people(m, names.drop_last()), names.last())
    }
}

/// `m` with each project mention of `items` recorded, in order.
pub open spec fn add_projects(
    m: Seq<EntityEntry>,
    items: Seq<(Seq<char>, Option<Seq<char>>)>,
) -> Seq<EntityEntry>
    decreases items.len(),
{
    if items.len() == 0 {
        m
    } else {
        let (raw, alias) = items.last();
        add_project(add_projects(m, items.drop_last()), raw, alias)
    }
}

/// The actors of `intents` that are named, in order.
pub open spec fn intent_actors(intents: Seq<Intent>) -> Seq<Seq<char>>
    decreases intents.len(),
{
    if intents.len() == 0 {
        Seq::empty()
    } else {
        match intents.last().who {
            Some(w) => intent_actors(intents.drop_last()).push(w@),
            None => intent_actors(intents.drop_last()),
        }
    }
}

/// Every person mention of a meeting, in the order they are recorded:
/// attendees, action item assignees, intent actors.
pub open spec fn person_mentions(
    attendees: Seq<String>,
    items: Seq<ActionItem>,
    intents: Seq<Intent>,
) -> Seq<Seq<char>> {
    text::string_views(attendees) + Seq::new(items.len(), |i: int| items[i].assignee@)
        + intent_actors(intents)
}

/// Every project mention of a meeting, in order: decisions (by topic, with
/// the decision text as alias source), context, title, tags.
pub open spec fn project_mentions(
    title: Seq<char>,
    pre_context: Option<Seq<char>>,
    decisions: Seq<Decision>,
    tags: Seq<String>,
) -> Seq<(Seq<char>, Option<Seq<char>>)> {
    Seq::new(
        decisions.len(),
        |i: int|
            match decisions[i].topic {
                Some(t) => (t@, Some(decisions[i].text@)),
                None => (decisions[i].text@, None::<Seq<char>>),
            },
    ) + match pre_context {
        Some(c) => seq![(c, None::<Seq<char>>)],
        None => Seq::empty(),
    } + seq![(title, None::<Seq<char>>)] + Seq::new(
        tags.len(),
        |i: int| (tags[i]@, None::<Seq<char>>),
    )
}

/// The view of an entity mention.
pub open spec fn ref_view(r: EntityRef) -> EntityEntry {
    (r.slug@, r.label@, text::string_views(r.aliases@))
}

/// The views of entity mentions.
pub open spec fn ref_views(v: Seq<EntityRef>) -> Seq<EntityEntry> {
    Seq::new(v.len(), |i: int| ref_view(v[i]))
}

/// Entity mentions for ordered entries.
fn refs_of(m: Vec<ExecEntityEntry>) -> (r: Vec<EntityRef>)
    ensures
        ref_views(r@) == entity_views(m@),
{
    let ghost mv = entity_views(m@);
    let mut r: Vec<EntityRef> = Vec::new();
    let mut i: usize = 0;
    while i < m.len()
        invariant
            i <= m@.len(),
            mv == entity_views(m@),
            ref_views(r@) =~= mv.take(i as int),
        decreases m@.len() - i,
    {
        let ghost before = ref_views(r@);
        let e = &m[i];
        let er = EntityRef {
            slug: string_of(e.0.as_slice()),
            label: string_of(e.1.as_slice()),
            aliases: strings_of(&e.2),
        };
        r.push(er);
        assert(ref_views(r@) =~= before.push(mv[i as int]));
        assert(mv.take(i + 1) =~= mv.take(i as int).push(mv[i as int]));
        i = i + 1;
    }
    assert(mv.take(m@.len() as int) =~= mv);
    r
}

/// The people and projects a meeting mentions, each ordered by slug:
/// people from attendees, action item assignees and intent actors;
/// projects from decision topics, the context note, the title and tags.
pub fn build_entity_links(
    title: &str,
    pre_context: Option<&str>,
    attendees: &[String],
    action_items: &[ActionItem],
    decisions: &[Decision],
    intents: &[Intent],
    tags: &[String],
) -> (r: EntityLinks)
    ensures
        ref_views(r.people@) == add_people(
            Seq::empty(),
            person_mentions(attendees@, action_items@, intents@),
        ),
        ref_views(r.projects@) == add_projects(
            Seq::empty(),
            project_mentions(title@, title::opt_view(pre_context), decisions@, tags@),
        ),
{
    let ghost names = person_mentions(attendees@, action_items@, intents@);
    let mut people: Vec<ExecEntityEntry> = Vec::new();
    assert(entity_views(people@) =~= Seq::<EntityEntry>::empty());
    let ghost a = text::string_views(attendees@);
    let mut i: usize = 0;
    assert(a.take(0) =~= Seq::<Seq<char>>::empty());
    while i < attendees.len()
        invariant
            i <= a.len(),
            a == text::string_views(attendees@),
            entity_views(people@) == add_people(Seq::empty(), a.take(i as int)),
        decreases a.len() - i,
    {
        assert(a.take(i + 1).drop_last() =~= a.take(i as int));
        add_person_entity(&mut people, chars_of(attendees[i].as_str()).as_slice());
        i = i + 1;
    }
    assert(a.take(a.len() as int) =~= a);
    let ghost p1 = a;
    let ghost asg = Seq::new(action_items@.len(), |k: int| action_items@[k].assignee@);
    let mut i: usize = 0;
    assert(p1 + asg.take(0) =~= p1);
    while i < action_items.len()
        invariant
            i <= asg.len(),
            asg == Seq::new(action_items@.len(), |k: int| action_items@[k].assignee@),
            entity_views(people@) == add_people(Seq::empty(), p1 + asg.take(i as int)),
        decreases asg.len() - i,
    {
        assert((p1 + asg.take(i + 1)).drop_last() =~= p1 + asg.take(i as int));
        assert((p1 + asg.take(i + 1)).last() == action_items@[i as int].assignee@);
        add_person_entity(&mut people, chars_of(action_items[i].assignee.as_str()).as_slice());
        i = i + 1;
    }
    assert(asg.take(asg.len() as int) =~= asg);
    let ghost p2 = p1 + asg;
    let mut i: usize = 0;
    assert(intents@.take(0) =~= Seq::<Intent>::empty());
    assert(p2 + intent_actors(intents@.take(0)) =~= p2);
    while i < intents.len()
        invariant
            i <= intents@.len(),
            entity_views(people@) == add_people(
                Seq::empty(),
                p2 + intent_actors(intents@.take(i as int)),
            ),
        decreases intents@.len() - i,
    {
        assert(intents@.take(i + 1).drop_last() =~= intents@.take(i as int));
        match &intents[i].who {
            Some(w) => {
                assert((p2 + intent_actors(intents@.take(i + 1))).drop_last() =~= p2
                    + intent_actors(intents@.take(i as int)));
                add_person_entity(&mut people, chars_of(w.as_str()).as_slice());
            },
            None => {
                assert(p2 + intent_actors(intents@.take(i + 1)) =~= p2 + intent_actors(
                    intents@.take(i as int),
                ));
            },
        }
        i = i + 1;
    }
    assert(intents@.take(intents@.len() as int) =~= intents@);
    assert(p2 + intent_actors(intents@) =~= names);
    let ghost items = project_mentions(title@, title::opt_view(pre_context), decisions@, tags@);
    let mut projects: Vec<ExecEntityEntry> = Vec::new();
    assert(entity_views(projects@) =~= Seq::<EntityEntry>::empty());
    let mut n: usize = 0;
    let ghost dm = Seq::new(
        decisions@.len(),
        |k: int|
            match decisions@[k].topic {
                Some(t) => (t@, Some(decisions@[k].text@)),
                None => (decisions@[k].text@, None::<Seq<char>>),
            },
    );
    assert(dm.take(0) =~= Seq::<(Seq<char>, Option<Seq<char>>)>::empty());
    while n < decisions.len()
        invariant
            n <= dm.len(),
            dm.len() == decisions@.len(),
            forall|k: int|
                0 <= k < dm.len() ==> #[trigger] dm[k] == match decisions@[k].topic {
                    Some(t) => (t@, Some(decisions@[k].text@)),
                    None => (decisions@[k].text@, None::<Seq<char>>),
                },
            entity_views(projects@) == add_projects(Seq::empty(), dm.take(n as int)),
        decreases dm.len() - n,
    {
        assert(dm.take(n + 1).drop_last() =~= dm.take(n as int));
        assert(dm.take(n + 1).last() == dm[n as int]);
        let d = &decisions[n];
        let text = chars_of(d.text.as_str());
        match &d.topic {
            Some(t) => {
                add_project_entity(&mut projects, chars_of(t.as_str()).as_slice(), Some(text.as_slice()));
            },
            None => {
                add_project_entity(&mut projects, text.as_slice(), None);
            },
        }
        n = n + 1;
    }
    assert(dm.take(dm.len() as int) =~= dm);
    let ghost q1 = dm;
    let ghost q2 = q1 + match title::opt_view(pre_context) {
        Some(c) => seq![(c, None::<Seq<char>>)],
        None => Seq::empty(),
    };
    match pre_context {
        Some(c) => {
            assert(q2.drop_last() =~= q1);
            assert(q2.last() == (c@, None::<Seq<char>>));
            add_project_entity(&mut projects, chars_of(c).as_slice(), None);
            assert(entity_views(projects@) == add_projects(Seq::empty(), q2));
        },
        None => {
            assert(q2 =~= q1);
        },
    }
    let ghost q3 = q2 + seq![(title@, None::<Seq<char>>)];
    assert(q3.drop_last() =~= q2);
    assert(q3.last() == (title@, None::<Seq<char>>));
    add_project_entity(&mut projects, chars_of(title).as_slice(), None);
    assert(entity_views(projects@) == add_projects(Seq::empty(), q3));
    let ghost tg = Seq::new(tags@.len(), |k: int| (tags@[k]@, None::<Seq<char>>));
    let mut i: usize = 0;
    assert(q3 + tg.take(0) =~= q3);
    while i < tags.len()
        invariant
            i <= tg.len(),
            tg == Seq::new(tags@.len(), |k: int| (tags@[k]@, None::<Seq<char>>)),
            entity_views(projects@) == add_projects(Seq::empty(), q3 + tg.take(i as int)),
        decreases tg.len() - i,
    {
        assert((q3 + tg.take(i + 1)).drop_last() =~= q3 + tg.take(i as int));
        assert((q3 + tg.take(i + 1)).last() == (tags@[i as int]@, None::<Seq<char>>));
        add_project_entity(&mut projects, chars_of(tags[i].as_str()).as_slice(), None);
        i = i + 1;
    }
    assert(tg.take(tg.len() as int) =~= tg);
    assert(q3 + tg =~= items);
    EntityLinks { people: refs_of(people), projects: refs_of(projects) }
}

/// Entries ordered strictly by slug, each with strictly ordered aliases.
pub open spec fn well_ordered(m: Seq<EntityEntry>) -> bool {
    &&& forall|i: int, j: int| 0 <= i < j < m.len() ==> text::seq_lt(m[i].0, m[j].0)
    &&& forall|i: int| 0 <= i < m.len() ==> text::strictly_sorted(#[trigger] m[i].2)
}

proof fn lemma_set_insert(s: Seq<Seq<char>>, x: Seq<char>)
    requires
        text::strictly_sorted(s),
    ensures
        text::strictly_sorted(set_insert(s, x)),
        set_insert(s, x).len() >= 1,
        forall|k: int|
            0 <= k < set_insert(s, x).len() ==> #[trigger] set_insert(s, x)[k] == x || s.contains(
                set_insert(s, x)[k],
            ),
    decreases s.len(),
{
    if s.len() == 0 {
    } else if s[0] == x {
    } else if text::seq_lt(x, s[0]) {
        let r = seq![x] + s;
        assert forall|i: int, j: int| 0 <= i < j < r.len() implies text::seq_lt(r[i], r[j]) by {
            if i == 0 && j > 1 {
                text::lemma_seq_lt_transitive(x, s[0], s[j - 1]);
            }
        }
        assert forall|k: int| 0 <= k < r.len() implies #[trigger] r[k] == x || s.contains(r[k]) by {
            if k > 0 {
                assert(r[k] == s[k - 1]);
            }
        }
    } else {
        let rest = s.drop_first();
        lemma_set_insert(rest, x);
        let ri = set_insert(rest, x);
        let r = seq![s[0]] + ri;
        text::lemma_seq_lt_total(x, s[0]);
        assert forall|i: int, j: int| 0 <= i < j < r.len() implies text::seq_lt(r[i], r[j]) by {
            if i == 0 {
                assert(r[j] == ri[j - 1]);
                if ri[j - 1] != x {
                    let k = choose|k: int| 0 <= k < rest.len() && rest[k] == ri[j - 1];
                    assert(rest[k] == s[k + 1]);
                }
            }
        }
        assert forall|k: int| 0 <= k < r.len() implies #[trigger] r[k] == x || s.contains(r[k]) by {
            if k == 0 {
                assert(s[0] == s[0]);
            } else {
                assert(r[k] == ri[k - 1]);
                if ri[k - 1] != x {
                    let m = choose|m: int| 0 <= m < rest.len() && rest[m] == ri[k - 1];
                    assert(s[m + 1] == rest[m]);
                }
            }
        }
    }
}

proof fn lemma_entry_insert(m: Seq<EntityEntry>, slug: Seq<char>, label: Seq<char>, alias: Seq<char>)
    requires
        well_ordered(m),
    ensures
        well_ordered(entry_insert(m, slug, label, alias)),
        entry_insert(m, slug, label, alias).len() >= 1,
        forall|k: int|
            0 <= k < entry_insert(m, slug, label, alias).len() ==> (#[trigger] entry_insert(
                m,
                slug,
                label,
                alias,
            )[k]).0 == slug || exists|n: int| 0 <= n < m.len() && m[n].0 == entry_insert(
                m,
                slug,
                label,
                alias,
            )[k].0,
    decreases m.len(),
{
    let r = entry_insert(m, slug, label, alias);
    if m.len() == 0 {
        assert(text::strictly_sorted(seq![alias]));
    } else if m[0].0 == slug {
        lemma_set_insert(m[0].2, alias);
        assert forall|i: int, j: int| 0 <= i < j < r.len() implies text::seq_lt(r[i].0, r[j].0) by {
            assert(r[j] == m[j]);
            if i > 0 {
                assert(r[i] == m[i]);
            }
        }
        assert forall|i: int| 0 <= i < r.len() implies text::strictly_sorted(#[trigger] r[i].2) by {
            if i > 0 {
                assert(r[i] == m[i]);
            }
        }
        assert forall|k: int| 0 <= k < r.len() implies (#[trigger] r[k]).0 == slug || exists|n: int|
            0 <= n < m.len() && m[n].0 == r[k].0 by {
            if k > 0 {
                assert(r[k] == m[k]);
            }
        }
    } else if text::seq_lt(slug, m[0].0) {
        assert(text::strictly_sorted(seq![alias]));
        assert forall|i: int, j: int| 0 <= i < j < r.len() implies text::seq_lt(r[i].0, r[j].0) by {
            assert(r[j] == m[j - 1]);
            if i == 0 {
                if j > 1 {
                    text::lemma_seq_lt_transitive(slug, m[0].0, m[j - 1].0);
                }
            } else {
                assert(r[i] == m[i - 1]);
            }
        }
        assert forall|i: int| 0 <= i < r.len() implies text::strictly_sorted(#[trigger] r[i].2) by {
            if i > 0 {
                assert(r[i] == m[i - 1]);
            }
        }
        assert forall|k: int| 0 <= k < r.len() implies (#[trigger] r[k]).0 == slug || exists|n: int|
            0 <= n < m.len() && m[n].0 == r[k].0 by {
            if k > 0 {
                assert(r[k] == m[k - 1]);
            }
        }
    } else {
        let rest = m.drop_first();
        assert(well_ordered(rest)) by {
            assert forall|i: int| 0 <= i < rest.len() implies text::strictly_sorted(
                #[trigger] rest[i].2,
            ) by {
                assert(rest[i] == m[i + 1]);
            }
        }
        lemma_entry_insert(rest, slug, label, alias);
        let ri = entry_insert(rest, slug, label, alias);
        assert(r == seq![m[0]] + ri);
        text::lemma_seq_lt_total(slug, m[0].0);
        assert forall|i: int, j: int| 0 <= i < j < r.len() implies text::seq_lt(r[i].0, r[j].0) by {
            if i == 0 {
                assert(r[j] == ri[j - 1]);
                if ri[j - 1].0 != slug {
                    let n = choose|n: int| 0 <= n < rest.len() && rest[n].0 == ri[j - 1].0;
                    assert(rest[n] == m[n + 1]);
                }
            } else {
                assert(r[i] == ri[i - 1]);
                assert(r[j] == ri[j - 1]);
            }
        }
        assert forall|i: int| 0 <= i < r.len() implies text::strictly_sorted(#[trigger] r[i].2) by {
            if i > 0 {
                assert(r[i] == ri[i - 1]);
            }
        }
        assert forall|k: int| 0 <= k < r.len() implies (#[trigger] r[k]).0 == slug || exists|n: int|
            0 <= n < m.len() && m[n].0 == r[k].0 by {
            if k == 0 {
                assert(m[0].0 == r[0].0);
            } else {
                assert(r[k] == ri[k - 1]);
                if ri[k - 1].0 != slug {
                    let n = choose|n: int| 0 <= n < rest.len() && rest[n].0 == ri[k - 1].0;
                    assert(m[n + 1].0 == rest[n].0);
                }
            }
        }
    }
}

/// Every entry has a non-empty slug that is the slug of its label, and at
/// least one alias.
pub open spec fn entries_formed(m: Seq<EntityEntry>) -> bool {
    forall|i: int|
        0 <= i < m.len() ==> (#[trigger] m[i]).0.len() > 0 && m[i].0 == slugified(m[i].1) && m[i].2.len() > 0
}

proof fn lemma_entry_insert_formed(m: Seq<EntityEntry>, slug: Seq<char>, label: Seq<char>, alias: Seq<char>)
    requires
        entries_formed(m),
        slug.len() > 0,
        slug == slugified(label),
    ensures
        entries_formed(entry_insert(m, slug, label, alias)),
    decreases m.len(),
{
    let r = entry_insert(m, slug, label, alias);
    if m.len() == 0 {
    } else if m[0].0 == slug {
        lemma_set_insert_len(m[0].2, alias);
        assert forall|i: int| 0 <= i < r.len() implies (#[trigger] r[i]).0.len() > 0 && r[i].0 == slugified(
            r[i].1,
        ) && r[i].2.len() > 0 by {
            if i > 0 {
                assert(r[i] == m[i]);
            }
        }
    } else if text::seq_lt(slug, m[0].0) {
        assert forall|i: int| 0 <= i < r.len() implies (#[trigger] r[i]).0.len() > 0 && r[i].0 == slugified(
            r[i].1,
        ) && r[i].2.len() > 0 by {
            if i > 0 {
                assert(r[i] == m[i - 1]);
            }
        }
    } else {
        let rest = m.drop_first();
        assert(entries_formed(rest)) by {
            assert forall|i: int| 0 <= i < rest.len() implies (#[trigger] rest[i]).0.len() > 0 && rest[i].0
                == slugified(rest[i].1) && rest[i].2.len() > 0 by {
                assert(rest[i] == m[i + 1]);
            }
        }
        lemma_entry_insert_formed(rest, slug, label, alias);
        let ri = entry_insert(rest, slug, label, alias);
        assert(r == seq![m[0]] + ri);
        assert forall|i: int| 0 <= i < r.len() implies (#[trigger] r[i]).0.len() > 0 && r[i].0 == slugified(
            r[i].1,
        ) && r[i].2.len() > 0 by {
            if i > 0 {
                assert(r[i] == ri[i - 1]);
            }
        }
    }
}

proof fn lemma_set_insert_len(s: Seq<Seq<char>>, x: Seq<char>)
    ensures
        set_insert(s, x).len() >= 1,
    decreases s.len(),
{
    if s.len() > 0 && s[0] != x && !text::seq_lt(x, s[0]) {
        lemma_set_insert_len(s.drop_first(), x);
    }
}

proof fn lemma_add_people_formed(names: Seq<Seq<char>>)
    ensures
        entries_formed(add_people(Seq::empty(), names)),
    decreases names.len(),
{
    if names.len() > 0 {
        lemma_add_people_formed(names.drop_last());
        let m = add_people(Seq::empty(), names.drop_last());
        let raw = names.last();
        let t = person_name(raw);
        let label = label_of(t);
        let slug = slugified(label);
        if slug.len() > 0 {
            lemma_entry_insert_formed(m, slug, label, text::lowercase(t));
            lemma_entry_insert_formed(
                entry_insert(m, slug, label, text::lowercase(t)),
                slug,
                label,
                text::lowercase(text::trim(raw)),
            );
        }
    }
}

proof fn lemma_add_projects_formed(items: Seq<(Seq<char>, Option<Seq<char>>)>)
    ensures
        entries_formed(add_projects(Seq::empty(), items)),
    decreases items.len(),
{
    if items.len() > 0 {
        lemma_add_projects_formed(items.drop_last());
        let m = add_projects(Seq::empty(), items.drop_last());
        let (raw, alias) = items.last();
        let n = entity_topic(raw);
        let label = label_of(n);
        let slug = slugified(label);
        if slug.len() > 0 {
            lemma_entry_insert_formed(m, slug, label, n);
            match alias {
                Some(a) => lemma_entry_insert_formed(
                    entry_insert(m, slug, label, n),
                    slug,
                    label,
                    text::lowercase(text::space_normalized(a)),
                ),
                None => {},
            }
        }
    }
}

proof fn lemma_add_people(names: Seq<Seq<char>>)
    ensures
        well_ordered(add_people(Seq::empty(), names)),
    decreases names.len(),
{
    if names.len() > 0 {
        lemma_add_people(names.drop_last());
        let m = add_people(Seq::empty(), names.drop_last());
        let raw = names.last();
        let t = person_name(raw);
        let label = label_of(t);
        let slug = slugified(label);
        lemma_entry_insert(m, slug, label, text::lowercase(t));
        lemma_entry_insert(
            entry_insert(m, slug, label, text::lowercase(t)),
            slug,
            label,
            text::lowercase(text::trim(raw)),
        );
    }
}

proof fn lemma_add_projects(items: Seq<(Seq<char>, Option<Seq<char>>)>)
    ensures
        well_ordered(add_projects(Seq::empty(), items)),
    decreases items.len(),
{
    if items.len() > 0 {
        lemma_add_projects(items.drop_last());
        let m = add_projects(Seq::empty(), items.drop_last());
        let (raw, alias) = items.last();
        let n = entity_topic(raw);
        let label = label_of(n);
        let slug = slugified(label);
        lemma_entry_insert(m, slug, label, n);
        match alias {
            Some(a) => lemma_entry_insert(
                entry_insert(m, slug, label, n),
                slug,
                label,
                text::lowercase(text::space_normalized(a)),
            ),
            None => {},
        }
    }
}

/// Entity links are ordered and well formed: people and projects come out
/// strictly ordered by slug (each slug once), each with a non-empty slug
/// that is the slug of its label and with at least one alias, the aliases
/// strictly ordered (each alias once), whatever the meeting mentions.
pub proof fn entity_links_are_ordered(
    title: Seq<char>,
    pre_context: Option<Seq<char>>,
    attendees: Seq<String>,
    action_items: Seq<ActionItem>,
    decisions: Seq<Decision>,
    intents: Seq<Intent>,
    tags: Seq<String>,
)
    ensures
        well_ordered(add_people(Seq::empty(), person_mentions(attendees, action_items, intents))),
        well_ordered(
            add_projects(Seq::empty(), project_mentions(title, pre_context, decisions, tags)),
        ),
        entries_formed(add_people(Seq::empty(), person_mentions(attendees, action_items, intents))),
        entries_formed(
            add_projects(Seq::empty(), project_mentions(title, pre_context, decisions, tags)),
        ),
{
    lemma_add_people(person_mentions(attendees, action_items, intents));
    lemma_add_projects(project_mentions(title, pre_context, decisions, tags));
    lemma_add_people_formed(person_mentions(attendees, action_items, intents));
    lemma_add_projects_formed(project_mentions(title, pre_context, decisions, tags));
}

} // verus!

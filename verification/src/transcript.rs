//! Transcript text: word counts, speaker labels, and the merge of the two
//! per-source transcripts of a native call capture into one time-ordered,
//! speaker-labelled transcript.

use crate::numbers;
use crate::text::{
    self, append_chars, chars_lt, chars_of, contains_seq, copy_range, find_chars, join_chars,
    keep_non_empty, lines_of, lit_chars, split_on, split_whitespace, string_of, strings_of,
    trim_chars,
};
use crate::title;
use vstd::prelude::*;

verus! {

/// The text of a transcript line after its leading `[...]` group, trimmed.
pub open spec fn line_text(line: Seq<char>) -> Seq<char> {
    if line.len() > 0 && line[0] == '[' {
        match text::find(line.drop_first(), seq![']']) {
            Some(e) => text::trim(line.drop_first().skip(e as int + 1)),
            None => text::trim(line),
        }
    } else {
        text::trim(line)
    }
}

/// Number of words in the texts of `ls`.
pub open spec fn word_total(ls: Seq<Seq<char>>) -> nat
    decreases ls.len(),
{
    if ls.len() == 0 {
        0
    } else {
        word_total(ls.drop_last()) + text::words(line_text(ls.last())).len()
    }
}

/// Number of spoken words in a transcript, ignoring each line's leading
/// `[...]` group.
pub open spec fn transcript_word_count(t: Seq<char>) -> nat {
    word_total(text::lines(t))
}

proof fn lemma_line_text_len(line: Seq<char>)
    ensures
        line_text(line).len() <= line.len(),
{
    text::lemma_trim_len(line);
    if line.len() > 0 && line[0] == '[' {
        text::lemma_find_from_bounds(line.drop_first(), seq![']'], 0);
        match text::find(line.drop_first(), seq![']']) {
            Some(e) => text::lemma_trim_len(line.drop_first().skip(e as int + 1)),
            None => {},
        }
    }
}

proof fn lemma_word_total(ls: Seq<Seq<char>>)
    ensures
        word_total(ls) <= text::total_len(ls),
    decreases ls.len(),
{
    if ls.len() > 0 {
        lemma_word_total(ls.drop_last());
        lemma_line_text_len(ls.last());
        text::lemma_words_len(line_text(ls.last()));
    }
}

/// Executable `line_text`.
fn line_text_chars(line: &[char]) -> (r: Vec<char>)
    ensures
        r@ == line_text(line@),
{
    if line.len() > 0 && line[0] == '[' {
        let rest = copy_range(line, 1, line.len());
        assert(rest@ =~= line@.drop_first());
        let close = vec![']'];
        assert(close@ =~= seq![']']);
        match find_chars(rest.as_slice(), close.as_slice(), 0) {
            Some(e) => {
                proof {
                    text::lemma_find_from_bounds(rest@, seq![']'], 0);
                }
                let after = copy_range(rest.as_slice(), e + 1, rest.len());
                assert(after@ =~= rest@.skip(e as int + 1));
                trim_chars(after.as_slice())
            },
            None => trim_chars(line),
        }
    } else {
        trim_chars(line)
    }
}

/// Number of spoken words in a transcript: each line's words after its
/// leading `[timestamp]` or `[speaker timestamp]` group.
pub fn count_transcript_words(transcript: &str) -> (n: usize)
    ensures
        n == transcript_word_count(transcript@),
{
    let cs = chars_of(transcript);
    let ls = lines_of(cs.as_slice());
    let ghost lv = text::views(ls@);
    proof {
        text::lemma_lines_total(cs@);
        lemma_word_total(lv);
    }
    let mut total: usize = 0;
    let mut i: usize = 0;
    assert(lv.take(0) =~= Seq::<Seq<char>>::empty());
    while i < ls.len()
        invariant
            i <= ls@.len(),
            lv == text::views(ls@),
            text::total_len(lv) <= cs@.len(),
            cs@.len() == cs.len(),
            total == word_total(lv.take(i as int)),
        decreases ls@.len() - i,
    {
        assert(lv.take(i + 1).drop_last() =~= lv.take(i as int));
        proof {
            lemma_word_total(lv.take(i + 1));
            text::lemma_total_len_take(lv, i + 1);
        }
        let t = line_text_chars(ls[i].as_slice());
        let ws = split_whitespace(t.as_slice());
        total = total + ws.len();
        i = i + 1;
    }
    assert(lv.take(ls@.len() as int) =~= lv);
    total
}

/// The speaker label of a `[LABEL timestamp] ...` line.
pub open spec fn line_label(line: Seq<char>) -> Option<Seq<char>> {
    if line.len() > 0 && line[0] == '[' {
        let rest = line.drop_first();
        match text::find(rest, seq![']']) {
            Some(e) => {
                let inside = rest.take(e as int);
                match text::find(inside, seq![' ']) {
                    Some(sp) => Some(inside.take(sp as int)),
                    None => None,
                }
            },
            None => None,
        }
    } else {
        None
    }
}

/// The distinct speaker labels of `ls`, in order of first appearance.
pub open spec fn labels_of(ls: Seq<Seq<char>>) -> Seq<Seq<char>>
    decreases ls.len(),
{
    if ls.len() == 0 {
        Seq::empty()
    } else {
        let prev = labels_of(ls.drop_last());
        match line_label(ls.last()) {
            Some(l) => if prev.contains(l) {
                prev
            } else {
                prev.push(l)
            },
            None => prev,
        }
    }
}

/// Executable `line_label`.
fn line_label_chars(line: &[char]) -> (r: Option<Vec<char>>)
    ensures
        text::opt_seq(r) == line_label(line@),
{
    if line.len() > 0 && line[0] == '[' {
        let rest = copy_range(line, 1, line.len());
        assert(rest@ =~= line@.drop_first());
        let close = vec![']'];
        assert(close@ =~= seq![']']);
        match find_chars(rest.as_slice(), close.as_slice(), 0) {
            Some(e) => {
                proof {
                    text::lemma_find_from_bounds(rest@, seq![']'], 0);
                }
                let inside = copy_range(rest.as_slice(), 0, e);
                assert(inside@ =~= rest@.take(e as int));
                let space = vec![' '];
                assert(space@ =~= seq![' ']);
                match find_chars(inside.as_slice(), space.as_slice(), 0) {
                    Some(sp) => {
                        proof {
                            text::lemma_find_from_bounds(inside@, seq![' '], 0);
                        }
                        let label = copy_range(inside.as_slice(), 0, sp);
                        assert(label@ =~= inside@.take(sp as int));
                        Some(label)
                    },
                    None => None,
                }
            },
            None => None,
        }
    } else {
        None
    }
}

/// The distinct speaker labels of a transcript, in order of first
/// appearance (`UNKNOWN` and named speakers included).
pub fn extract_effective_transcript_speaker_labels(transcript: &str) -> (r: Vec<String>)
    ensures
        text::string_views(r@) == labels_of(text::lines(transcript@)),
{
    let cs = chars_of(transcript);
    let ls = lines_of(cs.as_slice());
    let ghost lv = text::views(ls@);
    let mut labels: Vec<Vec<char>> = Vec::new();
    let mut i: usize = 0;
    assert(lv.take(0) =~= Seq::<Seq<char>>::empty());
    while i < ls.len()
        invariant
            i <= ls@.len(),
            lv == text::views(ls@),
            text::views(labels@) == labels_of(lv.take(i as int)),
        decreases ls@.len() - i,
    {
        assert(lv.take(i + 1).drop_last() =~= lv.take(i as int));
        assert(lv.take(i + 1).last() == ls@[i as int]@);
        match line_label_chars(ls[i].as_slice()) {
            Some(l) => {
                if !contains_seq(&labels, l.as_slice()) {
                    let ghost before = text::views(labels@);
                    labels.push(l);
                    assert(text::views(labels@) =~= before.push(l@));
                }
            },
            None => {},
        }
        i = i + 1;
    }
    assert(lv.take(ls@.len() as int) =~= lv);
    strings_of(&labels)
}

/// A timestamp component: a non-empty run of ASCII digits whose value fits
/// in 64 bits.
pub open spec fn component_value(s: Seq<char>) -> Option<nat> {
    numbers::bounded_decimal(s, u64::MAX as nat)
}

/// Seconds denoted by an `M:SS` or `H:MM:SS` timestamp.
pub open spec fn timestamp_secs(ts: Seq<char>) -> Option<nat> {
    let parts = text::split_set(ts, seq![':']);
    if parts.len() == 2 {
        match (component_value(parts[0]), component_value(parts[1])) {
            (Some(m), Some(s)) => Some(m * 60 + s),
            _ => None,
        }
    } else if parts.len() == 3 {
        match (component_value(parts[0]), component_value(parts[1]), component_value(parts[2])) {
            (Some(h), Some(m), Some(s)) => Some(h * 3600 + m * 60 + s),
            _ => None,
        }
    } else {
        None
    }
}

/// Executable `component_value`.
fn component_value_exec(s: &[char]) -> (r: Option<u64>)
    ensures
        match r {
            Some(v) => component_value(s@) == Some(v as nat),
            None => component_value(s@) is None,
        },
{
    numbers::decimal_at_most(s, 0xFFFF_FFFF_FFFF_FFFFu64)
}

/// Executable `timestamp_secs`.
fn timestamp_secs_exec(ts: &[char]) -> (r: Option<u128>)
    ensures
        match r {
            Some(v) => timestamp_secs(ts@) == Some(v as nat),
            None => timestamp_secs(ts@) is None,
        },
{
    let colon = vec![':'];
    assert(colon@ =~= seq![':']);
    let parts = split_on(ts, colon.as_slice());
    if parts.len() == 2 {
        match (component_value_exec(parts[0].as_slice()), component_value_exec(parts[1].as_slice())) {
            (Some(m), Some(s)) => Some((m as u128) * 60 + (s as u128)),
            _ => None,
        }
    } else if parts.len() == 3 {
        match (
            component_value_exec(parts[0].as_slice()),
            component_value_exec(parts[1].as_slice()),
            component_value_exec(parts[2].as_slice()),
        ) {
            (Some(h), Some(m), Some(s)) => Some((h as u128) * 3600 + (m as u128) * 60 + (s as u128)),
            _ => None,
        }
    } else {
        None
    }
}

/// A parsed source line: speaker id (0 voice, 1 call audio), timestamp
/// text, its value in seconds, and the spoken text.
pub type Entry = (u8, Seq<char>, nat, Seq<char>);

/// The entry a `[timestamp] text` line gives, if its timestamp parses and
/// its text is not empty.
pub open spec fn source_entry(line: Seq<char>, speaker: u8) -> Option<Entry> {
    if line.len() > 0 && line[0] == '[' {
        let rest = line.drop_first();
        match text::find(rest, seq![']']) {
            Some(e) => {
                let ts = rest.take(e as int);
                let body = text::trim(rest.skip(e as int + 1));
                match timestamp_secs(ts) {
                    Some(secs) => if body.len() > 0 {
                        Some((speaker, ts, secs, body))
                    } else {
                        None
                    },
                    None => None,
                }
            },
            None => None,
        }
    } else {
        None
    }
}

/// The entries of the lines `ls`, in order.
pub open spec fn source_entries(ls: Seq<Seq<char>>, speaker: u8) -> Seq<Entry>
    decreases ls.len(),
{
    if ls.len() == 0 {
        Seq::empty()
    } else {
        let prev = source_entries(ls.drop_last(), speaker);
        match source_entry(ls.last(), speaker) {
            Some(e) => prev.push(e),
            None => prev,
        }
    }
}

/// Ordering of entries: by time, then speaker (`SPEAKER_0` before
/// `SPEAKER_1`), then text.
pub open spec fn entry_lt(a: Entry, b: Entry) -> bool {
    a.2 < b.2 || (a.2 == b.2 && (a.0 < b.0 || (a.0 == b.0 && text::seq_lt(a.3, b.3))))
}

/// Position at which a stable insertion puts `x` into sorted `s`: before
/// the first entry that `x` orders strictly before.
pub open spec fn insert_pos(s: Seq<Entry>, x: Entry) -> nat
    decreases s.len(),
{
    if s.len() == 0 {
        0
    } else if entry_lt(x, s[0]) {
        0
    } else {
        1 + insert_pos(s.drop_first(), x)
    }
}

/// `xs` stably sorted by `entry_lt`.
pub open spec fn stable_sorted(xs: Seq<Entry>) -> Seq<Entry>
    decreases xs.len(),
{
    if xs.len() == 0 {
        Seq::empty()
    } else {
        let s = stable_sorted(xs.drop_last());
        s.insert(insert_pos(s, xs.last()) as int, xs.last())
    }
}

/// The speaker label of a source.
pub open spec fn speaker_name(speaker: u8) -> Seq<char> {
    if speaker == 0 {
        "SPEAKER_0"@
    } else {
        "SPEAKER_1"@
    }
}

/// `[SPEAKER_n timestamp] text`.
pub open spec fn rendered_entry(e: Entry) -> Seq<char> {
    "["@ + speaker_name(e.0) + " "@ + e.1 + "] "@ + e.3
}

/// The merged transcript of a call capture's voice and system stems.
pub open spec fn merged_transcript(voice: Seq<char>, system: Seq<char>) -> Seq<char> {
    let sorted = stable_sorted(
        source_entries(text::lines(voice), 0) + source_entries(text::lines(system), 1),
    );
    if sorted.len() == 0 {
        text::join(
            text::non_empty(seq![text::trim(voice), text::trim(system)]),
            seq!['\n'],
        )
    } else {
        text::join(Seq::new(sorted.len(), |i: int| rendered_entry(sorted[i])), seq!['\n'])
    }
}

/// An executable entry.
pub type ExecEntry = (u8, Vec<char>, u128, Vec<char>);

/// The view of an executable entry.
pub open spec fn entry_view(e: ExecEntry) -> Entry {
    (e.0, e.1@, e.2 as nat, e.3@)
}

/// The views of executable entries.
pub open spec fn entry_views(v: Seq<ExecEntry>) -> Seq<Entry> {
    Seq::new(v.len(), |i: int| entry_view(v[i]))
}

/// Executable `source_entry`.
fn source_entry_exec(line: &[char], speaker: u8) -> (r: Option<ExecEntry>)
    ensures
        match r {
            Some(e) => source_entry(line@, speaker) == Some(entry_view(e)),
            None => source_entry(line@, speaker) is None,
        },
{
    if line.len() > 0 && line[0] == '[' {
        let rest = copy_range(line, 1, line.len());
        assert(rest@ =~= line@.drop_first());
        let close = vec![']'];
        assert(close@ =~= seq![']']);
        match find_chars(rest.as_slice(), close.as_slice(), 0) {
            Some(e) => {
                proof {
                    text::lemma_find_from_bounds(rest@, seq![']'], 0);
                }
                let ts = copy_range(rest.as_slice(), 0, e);
                assert(ts@ =~= rest@.take(e as int));
                let after = copy_range(rest.as_slice(), e + 1, rest.len());
                assert(after@ =~= rest@.skip(e as int + 1));
                let body = trim_chars(after.as_slice());
                match timestamp_secs_exec(ts.as_slice()) {
                    Some(secs) => if body.len() > 0 {
                        Some((speaker, ts, secs, body))
                    } else {
                        None
                    },
                    None => None,
                }
            },
            None => None,
        }
    } else {
        None
    }
}

/// Appends the entries of `transcript`'s lines for `speaker` to `out`.
fn push_source_entries(out: &mut Vec<ExecEntry>, transcript: &[char], speaker: u8)
    ensures
        entry_views(final(out)@) == entry_views(old(out)@) + source_entries(
            text::lines(transcript@),
            speaker,
        ),
{
    let ls = lines_of(transcript);
    let ghost lv = text::views(ls@);
    let ghost start = entry_views(out@);
    let mut i: usize = 0;
    assert(lv.take(0) =~= Seq::<Seq<char>>::empty());
    assert(start + source_entries(lv.take(0), speaker) =~= start);
    while i < ls.len()
        invariant
            i <= ls@.len(),
            lv == text::views(ls@),
            entry_views(out@) == start + source_entries(lv.take(i as int), speaker),
        decreases ls@.len() - i,
    {
        assert(lv.take(i + 1).drop_last() =~= lv.take(i as int));
        assert(lv.take(i + 1).last() == ls@[i as int]@);
        let ghost before = entry_views(out@);
        match source_entry_exec(ls[i].as_slice(), speaker) {
            Some(e) => {
                out.push(e);
                assert(entry_views(out@) =~= before.push(entry_view(e)));
            },
            None => {},
        }
        i = i + 1;
    }
    assert(lv.take(ls@.len() as int) =~= lv);
}

/// Executable `entry_lt`.
fn entry_lt_exec(a: &ExecEntry, b: &ExecEntry) -> (r: bool)
    ensures
        r == entry_lt(entry_view(*a), entry_view(*b)),
{
    a.2 < b.2 || (a.2 == b.2 && (a.0 < b.0 || (a.0 == b.0 && chars_lt(
        a.3.as_slice(),
        b.3.as_slice(),
    ))))
}

/// Inserts `x` into `sorted` at `insert_pos`.
fn insert_stable(sorted: &mut Vec<ExecEntry>, x: ExecEntry)
    ensures
        entry_views(final(sorted)@) == entry_views(old(sorted)@).insert(
            insert_pos(entry_views(old(sorted)@), entry_view(x)) as int,
            entry_view(x),
        ),
{
    let ghost sv = entry_views(sorted@);
    let mut i: usize = 0;
    assert(sv.skip(0) =~= sv);
    while i < sorted.len() && !entry_lt_exec(&x, &sorted[i])
        invariant
            i <= sorted@.len(),
            sv == entry_views(sorted@),
            insert_pos(sv, entry_view(x)) == i + insert_pos(sv.skip(i as int), entry_view(x)),
        decreases sorted@.len() - i,
    {
        assert(sv.skip(i as int)[0] == sv[i as int]);
        assert(sv.skip(i as int).drop_first() =~= sv.skip(i + 1));
        i = i + 1;
    }
    if i < sorted.len() {
        assert(sv.skip(i as int)[0] == sv[i as int]);
    }
    let ghost xv = entry_view(x);
    sorted.insert(i, x);
    assert(entry_views(sorted@) =~= sv.insert(i as int, xv));
}

/// Renders one entry as `[SPEAKER_n timestamp] text`.
fn render_entry(e: &ExecEntry) -> (r: Vec<char>)
    ensures
        r@ == rendered_entry(entry_view(*e)),
{
    let mut r = lit_chars("[");
    if e.0 == 0 {
        append_chars(&mut r, lit_chars("SPEAKER_0").as_slice());
    } else {
        append_chars(&mut r, lit_chars("SPEAKER_1").as_slice());
    }
    append_chars(&mut r, lit_chars(" ").as_slice());
    append_chars(&mut r, e.1.as_slice());
    append_chars(&mut r, lit_chars("] ").as_slice());
    append_chars(&mut r, e.3.as_slice());
    r
}

/// Merges the voice (microphone) and system (call audio) transcripts of a
/// call capture: every `[timestamp] text` line becomes
/// `[SPEAKER_0 timestamp] text` or `[SPEAKER_1 timestamp] text`, ordered by
/// time, then speaker, then text (a stable order). When neither holds such
/// a line, the trimmed non-empty inputs are joined by a newline.
pub fn merge_source_transcripts(voice_transcript: &str, system_transcript: &str) -> (r: String)
    ensures
        r@ == merged_transcript(voice_transcript@, system_transcript@),
{
    let voice = chars_of(voice_transcript);
    let system = chars_of(system_transcript);
    let mut all: Vec<ExecEntry> = Vec::new();
    assert(entry_views(all@) =~= Seq::<Entry>::empty());
    push_source_entries(&mut all, voice.as_slice(), 0);
    push_source_entries(&mut all, system.as_slice(), 1);
    let ghost av = entry_views(all@);
    assert(av =~= source_entries(text::lines(voice@), 0) + source_entries(
        text::lines(system@),
        1,
    ));
    let mut sorted: Vec<ExecEntry> = Vec::new();
    let mut rest = all;
    let mut k: usize = 0;
    let n = rest.len();
    assert(av.take(0) =~= Seq::<Entry>::empty());
    while k < n
        invariant
            n == av.len(),
            k <= n,
            rest@.len() == n - k,
            forall|j: int| 0 <= j < rest@.len() ==> entry_view(#[trigger] rest@[j]) == av[k + j],
            entry_views(sorted@) == stable_sorted(av.take(k as int)),
        decreases n - k,
    {
        let x = rest.remove(0);
        assert(entry_view(x) == av[k as int]);
        assert(av.take(k + 1).drop_last() =~= av.take(k as int));
        insert_stable(&mut sorted, x);
        k = k + 1;
    }
    assert(av.take(n as int) =~= av);
    let nl = vec!['\n'];
    assert(nl@ =~= seq!['\n']);
    if sorted.len() == 0 {
        let mut pieces: Vec<Vec<char>> = Vec::new();
        pieces.push(trim_chars(voice.as_slice()));
        pieces.push(trim_chars(system.as_slice()));
        assert(text::views(pieces@) =~= seq![text::trim(voice@), text::trim(system@)]);
        let kept = keep_non_empty(pieces);
        return string_of(join_chars(&kept, nl.as_slice()).as_slice());
    }
    let ghost sv = entry_views(sorted@);
    let mut rendered: Vec<Vec<char>> = Vec::new();
    let mut i: usize = 0;
    while i < sorted.len()
        invariant
            i <= sorted@.len(),
            sv == entry_views(sorted@),
            text::views(rendered@) =~= Seq::new(i as nat, |j: int| rendered_entry(sv[j])),
        decreases sorted@.len() - i,
    {
        let ghost before = text::views(rendered@);
        rendered.push(render_entry(&sorted[i]));
        assert(text::views(rendered@) =~= before.push(rendered_entry(sv[i as int])));
        i = i + 1;
    }
    string_of(join_chars(&rendered, nl.as_slice()).as_slice())
}

/// A single stem's transcript with each `[timestamp] text` line labelled
/// with the stem's speaker, in order; the transcript itself when it has no
/// such line.
pub open spec fn single_source_transcript(t: Seq<char>, speaker: u8) -> Seq<char> {
    let es = source_entries(text::lines(t), speaker);
    if es.len() == 0 {
        t
    } else {
        text::join(Seq::new(es.len(), |i: int| rendered_entry(es[i])), seq!['\n'])
    }
}

/// Labels a single stem's transcript; see `single_source_transcript`.
pub fn label_single_source(transcript: &str, speaker: u8) -> (r: String)
    ensures
        r@ == single_source_transcript(transcript@, speaker),
{
    let t = chars_of(transcript);
    let mut es: Vec<ExecEntry> = Vec::new();
    assert(entry_views(es@) =~= Seq::<Entry>::empty());
    push_source_entries(&mut es, t.as_slice(), speaker);
    assert(entry_views(es@) =~= source_entries(text::lines(transcript@), speaker));
    if es.len() == 0 {
        return transcript.to_owned();
    }
    let ghost ev = entry_views(es@);
    let mut rendered: Vec<Vec<char>> = Vec::new();
    let mut i: usize = 0;
    while i < es.len()
        invariant
            i <= es@.len(),
            ev == entry_views(es@),
            text::views(rendered@) =~= Seq::new(i as nat, |j: int| rendered_entry(ev[j])),
        decreases es@.len() - i,
    {
        let ghost before = text::views(rendered@);
        rendered.push(render_entry(&es[i]));
        assert(text::views(rendered@) =~= before.push(rendered_entry(ev[i as int])));
        i = i + 1;
    }
    let nl = vec!['\n'];
    assert(nl@ =~= seq!['\n']);
    string_of(join_chars(&rendered, nl.as_slice()).as_slice())
}

/// The transcript of a call capture from its two stems' transcripts (none
/// where a stem failed): both merged, one alone labelled with its speaker,
/// or none when both failed (the container audio is transcribed instead).
pub open spec fn stems_transcript(voice: Option<Seq<char>>, system: Option<Seq<char>>) -> Option<Seq<char>> {
    match (voice, system) {
        (Some(v), Some(s)) => Some(merged_transcript(v, s)),
        (Some(v), None) => Some(single_source_transcript(v, 0)),
        (None, Some(s)) => Some(single_source_transcript(s, 1)),
        (None, None) => None,
    }
}

/// Combines the stems' transcripts; see `stems_transcript`.
pub fn stem_transcript(voice: Option<&str>, system: Option<&str>) -> (r: Option<String>)
    ensures
        text::opt_string(r) == stems_transcript(title::opt_view(voice), title::opt_view(system)),
{
    match (voice, system) {
        (Some(v), Some(s)) => Some(merge_source_transcripts(v, s)),
        (Some(v), None) => Some(label_single_source(v, 0)),
        (None, Some(s)) => Some(label_single_source(s, 1)),
        (None, None) => None,
    }
}

/// Whether entries are in order: none comes before one it orders after.
pub open spec fn entries_in_order(s: Seq<Entry>) -> bool {
    forall|i: int, j: int| 0 <= i < j < s.len() ==> !entry_lt(s[j], s[i])
}

proof fn lemma_entry_lt_transitive(a: Entry, b: Entry, c: Entry)
    requires
        entry_lt(a, b),
        entry_lt(b, c),
    ensures
        entry_lt(a, c),
{
    if a.2 == b.2 && b.2 == c.2 && a.0 == b.0 && b.0 == c.0 {
        text::lemma_seq_lt_transitive(a.3, b.3, c.3);
    }
}

proof fn lemma_entry_lt_total(a: Entry, b: Entry)
    ensures
        entry_lt(a, b) || entry_lt(b, a) || (a.2 == b.2 && a.0 == b.0 && a.3 == b.3),
{
    if a.2 == b.2 && a.0 == b.0 && a.3 != b.3 {
        text::lemma_seq_lt_total(a.3, b.3);
    }
}

proof fn lemma_entry_lt_asymmetric(a: Entry, b: Entry)
    requires
        entry_lt(a, b),
    ensures
        !entry_lt(b, a),
{
    if a.2 == b.2 && a.0 == b.0 {
        text::lemma_seq_lt_asymmetric(a.3, b.3);
    }
}

proof fn lemma_insert_pos_split(s: Seq<Entry>, x: Entry)
    requires
        entries_in_order(s),
    ensures
        insert_pos(s, x) <= s.len(),
        forall|k: int| 0 <= k < insert_pos(s, x) ==> !entry_lt(x, s[k]),
        forall|k: int| insert_pos(s, x) <= k < s.len() ==> entry_lt(x, s[k]),
    decreases s.len(),
{
    if s.len() > 0 {
        if entry_lt(x, s[0]) {
            assert forall|k: int| 0 <= k < s.len() implies entry_lt(x, s[k]) by {
                if k > 0 {
                    lemma_entry_lt_total(s[0], s[k]);
                    if entry_lt(s[0], s[k]) {
                        lemma_entry_lt_transitive(x, s[0], s[k]);
                    }
                }
            }
        } else {
            let r = s.drop_first();
            assert(entries_in_order(r)) by {
                assert forall|i: int, j: int| 0 <= i < j < r.len() implies !entry_lt(r[j], r[i]) by {
                    assert(r[i] == s[i + 1] && r[j] == s[j + 1]);
                }
            }
            lemma_insert_pos_split(r, x);
            assert forall|k: int| 0 <= k < insert_pos(s, x) implies !entry_lt(x, s[k]) by {
                if k > 0 {
                    assert(s[k] == r[k - 1]);
                }
            }
            assert forall|k: int| insert_pos(s, x) <= k < s.len() implies entry_lt(x, s[k]) by {
                assert(s[k] == r[k - 1]);
            }
        }
    }
}

/// The lines of a merged call transcript come in order: whatever the two
/// stems held, no entry is placed after one that it orders before (by
/// time, then speaker, then text), and as many entries come out as went in.
pub proof fn merged_entries_are_in_order(xs: Seq<Entry>)
    ensures
        entries_in_order(stable_sorted(xs)),
        stable_sorted(xs).len() == xs.len(),
    decreases xs.len(),
{
    if xs.len() > 0 {
        let s = stable_sorted(xs.drop_last());
        merged_entries_are_in_order(xs.drop_last());
        let x = xs.last();
        let p = insert_pos(s, x);
        lemma_insert_pos_split(s, x);
        let r = s.insert(p as int, x);
        assert forall|i: int, j: int| 0 <= i < j < r.len() implies !entry_lt(r[j], r[i]) by {
            if j < p {
                assert(r[i] == s[i] && r[j] == s[j]);
            } else if j == p {
                assert(r[j] == x && r[i] == s[i]);
            } else if i < p {
                assert(r[i] == s[i] && r[j] == s[j - 1]);
            } else if i == p {
                assert(r[i] == x && r[j] == s[j - 1]);
                lemma_entry_lt_asymmetric(x, s[j - 1]);
            } else {
                assert(r[i] == s[i - 1] && r[j] == s[j - 1]);
            }
        }
    }
}

} // verus!

//! Meeting titles: derived from the user's context note when it is
//! specific, otherwise from the first spoken line of the transcript, with
//! timestamps, speaker labels and lead-in phrases removed and likely
//! hallucinated non-Latin text rejected.

use crate::text::{
    self, append_chars, chars_of, copy_range, eq_lit, find_chars, is_alphabetic, join_chars,
    lines_of, lit_chars, normalize_space_chars, prefix_len_if, split_on, split_whitespace,
    string_of, to_lowercase_chars, to_uppercase_char, trim_chars, trim_punct_ws_bounds,
};
use vstd::prelude::*;

verus! {

/// The characters of an optional string.
pub open spec fn opt_view(o: Option<&str>) -> Option<Seq<char>> {
    match o {
        Some(s) => Some(s@),
        None => None,
    }
}

/// `s` with any number of leading `[...]` groups removed (each followed by
/// trimming); `None` when a `[` has no closing `]`.
pub open spec fn strip_brackets(s: Seq<char>) -> Option<Seq<char>>
    decreases s.len(),
{
    if s.len() > 0 && s[0] == '[' {
        let rest = s.drop_first();
        match text::find(rest, seq![']']) {
            None => None,
            Some(e) => {
                proof {
                    text::lemma_find_from_bounds(rest, seq![']'], 0);
                    text::lemma_trim_len(rest.skip(e as int + 1));
                }
                strip_brackets(text::trim(rest.skip(e as int + 1)))
            },
        }
    } else {
        Some(s)
    }
}

/// A transcript line with its timestamp and speaker prefixes removed and
/// its spacing normalized; `None` when nothing is left.
pub open spec fn cleaned_line(line: Seq<char>) -> Option<Seq<char>> {
    match strip_brackets(text::trim(line)) {
        None => None,
        Some(r) => {
            let c = text::space_normalized(r);
            if c.len() == 0 {
                None
            } else {
                Some(c)
            }
        },
    }
}

/// The first line of `ls` that cleans to something.
pub open spec fn first_cleaned(ls: Seq<Seq<char>>) -> Option<Seq<char>>
    decreases ls.len(),
{
    if ls.len() == 0 {
        None
    } else {
        match cleaned_line(ls[0]) {
            Some(c) => Some(c),
            None => first_cleaned(ls.drop_first()),
        }
    }
}

/// Length of the conversational lead-in that lowercased text starts with.
pub open spec fn lead_in_len(lower: Seq<char>) -> Option<nat> {
    if text::has_prefix(lower, "we need to discuss "@) {
        Some("we need to discuss "@.len())
    } else if text::has_prefix(lower, "let's talk about "@) {
        Some("let's talk about "@.len())
    } else if text::has_prefix(lower, "lets talk about "@) {
        Some("lets talk about "@.len())
    } else if text::has_prefix(lower, "let's discuss "@) {
        Some("let's discuss "@.len())
    } else if text::has_prefix(lower, "lets discuss "@) {
        Some("lets discuss "@.len())
    } else if text::has_prefix(lower, "i just had an idea about "@) {
        Some("i just had an idea about "@.len())
    } else if text::has_prefix(lower, "i had an idea about "@) {
        Some("i had an idea about "@.len())
    } else if text::has_prefix(lower, "this is about "@) {
        Some("this is about "@.len())
    } else if text::has_prefix(lower, "today we're talking about "@) {
        Some("today we're talking about "@.len())
    } else if text::has_prefix(lower, "today we are talking about "@) {
        Some("today we are talking about "@.len())
    } else if text::has_prefix(lower, "we're talking about "@) {
        Some("we're talking about "@.len())
    } else if text::has_prefix(lower, "we are talking about "@) {
        Some("we are talking about "@.len())
    } else if text::has_prefix(lower, "we should talk about "@) {
        Some("we should talk about "@.len())
    } else if text::has_prefix(lower, "we should discuss "@) {
        Some("we should discuss "@.len())
    } else if text::has_prefix(lower, "i want to talk about "@) {
        Some("i want to talk about "@.len())
    } else if text::has_prefix(lower, "i want to discuss "@) {
        Some("i want to discuss "@.len())
    } else {
        None
    }
}

/// A line with a conversational lead-in ("let's talk about ...") removed.
/// The lead-in is found in the lowercased line, and the line is cut after
/// as many UTF-8 bytes as the lead-in has; where lowercasing changed the
/// byte length of a character before that point (a Kelvin sign, say), the
/// cut falls elsewhere than after the lead-in, and where it falls inside a
/// character (a cut that slicing the string would refuse) nothing is left.
pub open spec fn stripped_lead_in(line: Seq<char>) -> Seq<char> {
    let cleaned = text::space_normalized(line);
    match lead_in_len(text::lowercase(cleaned)) {
        Some(n) => match text::byte_suffix(cleaned, n) {
            Some(rest) => text::trim(rest),
            None => Seq::empty(),
        },
        None => cleaned,
    }
}

/// Whether `c` is a Latin-script letter (ASCII, Latin-1 Supplement,
/// Latin Extended-A/B, or Latin Extended Additional).
pub open spec fn is_latin(c: char) -> bool {
    let u = c as u32;
    text::is_ascii_alpha(c) || (0xC0 <= u <= 0x24F) || (0x1E00 <= u <= 0x1EFF)
}

/// Number of alphabetic characters in `s`.
pub open spec fn alpha_count(s: Seq<char>) -> nat
    decreases s.len(),
{
    if s.len() == 0 {
        0
    } else {
        alpha_count(s.drop_last()) + if text::char_alphabetic(s.last()) {
            1nat
        } else {
            0nat
        }
    }
}

/// Number of alphabetic Latin-script characters in `s`.
pub open spec fn latin_alpha_count(s: Seq<char>) -> nat
    decreases s.len(),
{
    if s.len() == 0 {
        0
    } else {
        latin_alpha_count(s.drop_last()) + if text::char_alphabetic(s.last()) && is_latin(s.last()) {
            1nat
        } else {
            0nat
        }
    }
}

/// Fewer than half of the letters of `s` are Latin: a hallucination signal.
pub open spec fn mostly_non_latin(s: Seq<char>) -> bool {
    alpha_count(s) > 0 && 2 * latin_alpha_count(s) < alpha_count(s)
}

/// Words kept in lowercase inside a title.
pub open spec fn is_title_stopword(w: Seq<char>) -> bool {
    ||| w == "a"@
    ||| w == "an"@
    ||| w == "and"@
    ||| w == "as"@
    ||| w == "at"@
    ||| w == "by"@
    ||| w == "for"@
    ||| w == "from"@
    ||| w == "in"@
    ||| w == "of"@
    ||| w == "on"@
    ||| w == "or"@
    ||| w == "the"@
    ||| w == "to"@
    ||| w == "with"@
}

/// Number of ASCII uppercase letters in `s`.
pub open spec fn upper_count(s: Seq<char>) -> nat
    decreases s.len(),
{
    if s.len() == 0 {
        0
    } else {
        upper_count(s.drop_last()) + if text::is_ascii_upper(s.last()) {
            1nat
        } else {
            0nat
        }
    }
}

/// Whether `s` holds an ASCII digit.
pub open spec fn has_digit(s: Seq<char>) -> bool {
    exists|i: int| 0 <= i < s.len() && text::is_ascii_digit(s[i])
}

/// Lowercase text with its first character uppercased.
pub open spec fn capitalized(lower: Seq<char>) -> Seq<char> {
    if lower.len() == 0 {
        Seq::empty()
    } else {
        text::char_uppercase(lower[0]) + lower.drop_first()
    }
}

/// The display form of the `idx`-th word of a title: words with digits or
/// several capitals are kept, inner stopwords are lowercased, everything
/// else is capitalized.
pub open spec fn title_word(w: Seq<char>, idx: int) -> Seq<char> {
    if has_digit(w) || upper_count(w) > 1 {
        w
    } else if idx != 0 && is_title_stopword(text::lowercase(w)) {
        text::lowercase(w)
    } else {
        capitalized(text::lowercase(w))
    }
}

/// Separators that end the first sentence of a title.
pub open spec fn sentence_ends() -> Seq<char> {
    seq!['.', '!', '?', '\n']
}

/// The first sentence of `text`, stripped of surrounding punctuation and
/// whitespace.
pub open spec fn title_core(text: Seq<char>) -> Seq<char> {
    text::trim(text::split_set(text::trim_by(text, text::punct_or_ws()), sentence_ends())[0])
}

/// `text` rendered as a title.
pub open spec fn display_title(text: Seq<char>) -> Seq<char> {
    let ws = text::words(title_core(text));
    text::join(Seq::new(ws.len(), |i: int| title_word(ws[i], i)), seq![' '])
}

/// A title cut to at most 60 characters (57 and an ellipsis).
pub open spec fn finalized_title(t: Seq<char>) -> Seq<char> {
    if t.len() > 60 {
        t.take(57) + "..."@
    } else {
        t
    }
}

/// Context notes too generic to serve as a title.
pub open spec fn is_generic_context(lower: Seq<char>) -> bool {
    ||| lower == "meeting"@
    ||| lower == "recording"@
    ||| lower == "memo"@
    ||| lower == "voice memo"@
    ||| lower == "call"@
    ||| lower == "conversation"@
    ||| lower == "note"@
}

/// The title taken from a context note, unless it is empty or generic.
pub open spec fn context_title(context: Seq<char>) -> Option<Seq<char>> {
    let cleaned = text::space_normalized(context);
    if cleaned.len() == 0 || is_generic_context(text::lowercase(cleaned)) {
        None
    } else {
        Some(display_title(cleaned))
    }
}

/// The title taken from the first meaningful transcript line.
pub open spec fn transcript_title(transcript: Seq<char>) -> Option<Seq<char>> {
    match first_cleaned(text::lines(transcript)) {
        None => None,
        Some(first) => {
            let candidate = text::space_normalized(stripped_lead_in(first));
            if candidate.len() == 0 || mostly_non_latin(candidate) {
                None
            } else {
                Some(display_title(candidate))
            }
        },
    }
}

/// The title of a recording.
pub open spec fn generated_title(transcript: Seq<char>, pre_context: Option<Seq<char>>) -> Seq<
    char,
> {
    let from_context = match pre_context {
        Some(c) => context_title(c),
        None => None,
    };
    match from_context {
        Some(t) => finalized_title(t),
        None => match transcript_title(transcript) {
            Some(t) => finalized_title(t),
            None => "Untitled Recording"@,
        },
    }
}

/// Executable `strip_brackets`.
fn strip_brackets_exec(s: Vec<char>) -> (r: Option<Vec<char>>)
    ensures
        text::opt_seq(r) == strip_brackets(s@),
{
    let mut rem = s;
    loop
        invariant
            strip_brackets(s@) == strip_brackets(rem@),
        decreases rem@.len(),
    {
        if rem.len() > 0 && rem[0] == '[' {
            let rest = copy_range(rem.as_slice(), 1, rem.len());
            assert(rest@ =~= rem@.drop_first());
            let close = vec![']'];
            assert(close@ =~= seq![']']);
            match find_chars(rest.as_slice(), close.as_slice(), 0) {
                None => {
                    return None;
                },
                Some(e) => {
                    proof {
                        text::lemma_find_from_bounds(rest@, seq![']'], 0);
                    }
                    let after = copy_range(rest.as_slice(), e + 1, rest.len());
                    assert(after@ =~= rest@.skip(e as int + 1));
                    proof {
                        text::lemma_trim_len(after@);
                    }
                    rem = trim_chars(after.as_slice());
                },
            }
        } else {
            return Some(rem);
        }
    }
}

/// `cleaned_line(line)`.
fn clean_line_chars(line: &[char]) -> (r: Option<Vec<char>>)
    ensures
        text::opt_seq(r) == cleaned_line(line@),
{
    let t = trim_chars(line);
    match strip_brackets_exec(t) {
        None => None,
        Some(rem) => {
            let c = normalize_space_chars(rem.as_slice());
            if c.len() == 0 {
                None
            } else {
                Some(c)
            }
        },
    }
}

/// A transcript line without its leading `[timestamp]`/`[speaker]` groups,
/// with normalized spacing; `None` when nothing is left or a `[` is
/// unclosed.
pub fn clean_transcript_line(line: &str) -> (r: Option<String>)
    ensures
        text::opt_string(r) == cleaned_line(line@),
{
    let cs = chars_of(line);
    match clean_line_chars(cs.as_slice()) {
        Some(v) => Some(string_of(v.as_slice())),
        None => None,
    }
}

/// `first_cleaned(text::views(ls))`.
fn first_cleaned_exec(ls: &Vec<Vec<char>>) -> (r: Option<Vec<char>>)
    ensures
        text::opt_seq(r) == first_cleaned(text::views(ls@)),
{
    let ghost all = text::views(ls@);
    let mut i: usize = 0;
    assert(all.skip(0) =~= all);
    while i < ls.len()
        invariant
            i <= ls@.len(),
            all == text::views(ls@),
            first_cleaned(all) == first_cleaned(all.skip(i as int)),
        decreases ls@.len() - i,
    {
        assert(all.skip(i as int)[0] == ls@[i as int]@);
        assert(all.skip(i as int).drop_first() =~= all.skip(i + 1));
        match clean_line_chars(ls[i].as_slice()) {
            Some(c) => {
                return Some(c);
            },
            None => {},
        }
        i = i + 1;
    }
    assert(all.skip(i as int).len() == 0);
    None
}

/// Executable `lead_in_len`.
fn lead_in_len_exec(lower: &[char]) -> (r: Option<usize>)
    ensures
        match r {
            Some(n) => lead_in_len(lower@) == Some(n as nat),
            None => lead_in_len(lower@) is None,
        },
{
    if let Some(n) = prefix_len_if(lower, "we need to discuss ") {
        return Some(n);
    }
    if let Some(n) = prefix_len_if(lower, "let's talk about ") {
        return Some(n);
    }
    if let Some(n) = prefix_len_if(lower, "lets talk about ") {
        return Some(n);
    }
    if let Some(n) = prefix_len_if(lower, "let's discuss ") {
        return Some(n);
    }
    if let Some(n) = prefix_len_if(lower, "lets discuss ") {
        return Some(n);
    }
    if let Some(n) = prefix_len_if(lower, "i just had an idea about ") {
        return Some(n);
    }
    if let Some(n) = prefix_len_if(lower, "i had an idea about ") {
        return Some(n);
    }
    if let Some(n) = prefix_len_if(lower, "this is about ") {
        return Some(n);
    }
    if let Some(n) = prefix_len_if(lower, "today we're talking about ") {
        return Some(n);
    }
    if let Some(n) = prefix_len_if(lower, "today we are talking about ") {
        return Some(n);
    }
    if let Some(n) = prefix_len_if(lower, "we're talking about ") {
        return Some(n);
    }
    if let Some(n) = prefix_len_if(lower, "we are talking about ") {
        return Some(n);
    }
    if let Some(n) = prefix_len_if(lower, "we should talk about ") {
        return Some(n);
    }
    if let Some(n) = prefix_len_if(lower, "we should discuss ") {
        return Some(n);
    }
    if let Some(n) = prefix_len_if(lower, "i want to talk about ") {
        return Some(n);
    }
    if let Some(n) = prefix_len_if(lower, "i want to discuss ") {
        return Some(n);
    }
    None
}

/// `stripped_lead_in(line)`.
fn strip_lead_in_chars(line: &[char]) -> (r: Vec<char>)
    ensures
        r@ == stripped_lead_in(line@),
{
    let cleaned = normalize_space_chars(line);
    let lower = to_lowercase_chars(cleaned.as_slice());
    assert(text::space_normalized(line@) == cleaned@);
    match lead_in_len_exec(lower.as_slice()) {
        Some(n) => {
            if let Some(k) = text::byte_boundary(cleaned.as_slice(), n) {
                let rest = copy_range(cleaned.as_slice(), k, cleaned.len());
                assert(rest@ =~= cleaned@.skip(k as int));
                let r = trim_chars(rest.as_slice());
                assert(lead_in_len(text::lowercase(cleaned@)) == Some(n as nat));
                assert(r@ == stripped_lead_in(line@));
                r
            } else {
                let r = Vec::new();
                assert(r@ =~= Seq::<char>::empty());
                assert(lead_in_len(text::lowercase(cleaned@)) == Some(n as nat));
                assert(r@ == stripped_lead_in(line@));
                r
            }
        },
        None => cleaned,
    }
}

/// A line with its spacing normalized and a conversational lead-in such as
/// "let's talk about " removed.
pub fn strip_lead_in_phrase(line: &str) -> (r: String)
    ensures
        r@ == stripped_lead_in(line@),
{
    let cs = chars_of(line);
    let v = strip_lead_in_chars(cs.as_slice());
    string_of(v.as_slice())
}

/// The words of `text` joined by single spaces.
pub fn normalize_space(text: &str) -> (r: String)
    ensures
        r@ == text::space_normalized(text@),
{
    let cs = chars_of(text);
    let v = normalize_space_chars(cs.as_slice());
    string_of(v.as_slice())
}

/// `mostly_non_latin(s)`.
fn mostly_non_latin_exec(s: &[char]) -> (r: bool)
    ensures
        r == mostly_non_latin(s@),
{
    let mut alpha: usize = 0;
    let mut latin: usize = 0;
    let mut i: usize = 0;
    assert(s@.take(0) =~= Seq::<char>::empty());
    while i < s.len()
        invariant
            i <= s@.len(),
            alpha == alpha_count(s@.take(i as int)),
            latin == latin_alpha_count(s@.take(i as int)),
            latin <= alpha <= i,
        decreases s@.len() - i,
    {
        let c = s[i];
        assert(s@.take(i + 1).drop_last() =~= s@.take(i as int));
        if is_alphabetic(c) {
            alpha = alpha + 1;
            let u = c as u32;
            if ('A' <= c && c <= 'Z') || ('a' <= c && c <= 'z') || (0xC0 <= u && u <= 0x24F) || (
            0x1E00 <= u && u <= 0x1EFF) {
                latin = latin + 1;
            }
        }
        i = i + 1;
    }
    assert(s@.take(s@.len() as int) =~= s@);
    alpha > 0 && latin < alpha - latin
}

/// Executable `is_title_stopword`.
fn is_title_stopword_exec(w: &[char]) -> (r: bool)
    ensures
        r == is_title_stopword(w@),
{
    eq_lit(w, "a") || eq_lit(w, "an") || eq_lit(w, "and") || eq_lit(w, "as") || eq_lit(w, "at")
        || eq_lit(w, "by") || eq_lit(w, "for") || eq_lit(w, "from") || eq_lit(w, "in") || eq_lit(
        w,
        "of",
    ) || eq_lit(w, "on") || eq_lit(w, "or") || eq_lit(w, "the") || eq_lit(w, "to") || eq_lit(
        w,
        "with",
    )
}

/// Executable `capitalized`.
pub(crate) fn capitalize_chars(lower: &[char]) -> (r: Vec<char>)
    ensures
        r@ == capitalized(lower@),
{
    if lower.len() == 0 {
        return Vec::new();
    }
    let mut r = to_uppercase_char(lower[0]);
    append_chars(&mut r, copy_range(lower, 1, lower.len()).as_slice());
    assert(lower@.subrange(1, lower@.len() as int) =~= lower@.drop_first());
    r
}

/// Executable `title_word`.
fn title_word_exec(w: &[char], idx: usize) -> (r: Vec<char>)
    ensures
        r@ == title_word(w@, idx as int),
{
    let mut digit = false;
    let mut upper: usize = 0;
    let mut i: usize = 0;
    assert(w@.take(0) =~= Seq::<char>::empty());
    while i < w.len()
        invariant
            i <= w@.len(),
            upper == upper_count(w@.take(i as int)),
            upper <= i,
            digit == exists|k: int| 0 <= k < i && text::is_ascii_digit(w@[k]),
        decreases w@.len() - i,
    {
        assert(w@.take(i + 1).drop_last() =~= w@.take(i as int));
        if '0' <= w[i] && w[i] <= '9' {
            digit = true;
        }
        if 'A' <= w[i] && w[i] <= 'Z' {
            upper = upper + 1;
        }
        i = i + 1;
    }
    assert(w@.take(w@.len() as int) =~= w@);
    if digit || upper > 1 {
        return copy_range(w, 0, w.len());
    }
    let lower = to_lowercase_chars(w);
    if idx != 0 && is_title_stopword_exec(lower.as_slice()) {
        lower
    } else {
        capitalize_chars(lower.as_slice())
    }
}

/// Executable `title_core`.
fn title_core_exec(text: &[char]) -> (r: Vec<char>)
    ensures
        r@ == title_core(text@),
{
    let (lo, hi) = trim_punct_ws_bounds(text);
    let core = copy_range(text, lo, hi);
    assert(core@ == text::trim_by(text@, text::punct_or_ws()));
    let seps = vec!['.', '!', '?', '\n'];
    assert(seps@ =~= sentence_ends());
    let pieces = split_on(core.as_slice(), seps.as_slice());
    proof {
        text::lemma_split_by_len(core@, text::one_of(sentence_ends()));
    }
    trim_chars(pieces[0].as_slice())
}

/// Executable `display_title`.
fn display_title_exec(text: &[char]) -> (r: Vec<char>)
    ensures
        r@ == display_title(text@),
{
    let core = title_core_exec(text);
    let ws = split_whitespace(core.as_slice());
    let ghost wv = text::views(ws@);
    let mut out: Vec<Vec<char>> = Vec::new();
    let mut i: usize = 0;
    while i < ws.len()
        invariant
            i <= ws@.len(),
            wv == text::views(ws@),
            text::views(out@) =~= Seq::new(i as nat, |k: int| title_word(wv[k], k)),
        decreases ws@.len() - i,
    {
        let ghost before = text::views(out@);
        out.push(title_word_exec(ws[i].as_slice(), i));
        assert(text::views(out@) =~= before.push(title_word(wv[i as int], i as int)));
        i = i + 1;
    }
    let sp = vec![' '];
    assert(sp@ =~= seq![' ']);
    join_chars(&out, sp.as_slice())
}

/// `text` as a title: its first sentence, with surrounding punctuation
/// removed, inner stopwords lowercased and other words capitalized (words
/// with digits or several capitals kept as written).
pub fn to_display_title(text: &str) -> (r: String)
    ensures
        r@ == display_title(text@),
{
    let cs = chars_of(text);
    string_of(display_title_exec(cs.as_slice()).as_slice())
}

/// Executable `finalized_title`.
fn finalize_title_chars(t: Vec<char>) -> (r: Vec<char>)
    ensures
        r@ == finalized_title(t@),
{
    if t.len() > 60 {
        let mut r = copy_range(t.as_slice(), 0, 57);
        let dots = lit_chars("...");
        append_chars(&mut r, dots.as_slice());
        r
    } else {
        t
    }
}

/// A title cut to 57 characters and an ellipsis when longer than 60.
pub fn finalize_title(title: String) -> (r: String)
    ensures
        r@ == finalized_title(title@),
{
    let cs = chars_of(title.as_str());
    string_of(finalize_title_chars(cs).as_slice())
}

/// Executable `is_generic_context`.
fn is_generic_context_exec(lower: &[char]) -> (r: bool)
    ensures
        r == is_generic_context(lower@),
{
    eq_lit(lower, "meeting") || eq_lit(lower, "recording") || eq_lit(lower, "memo") || eq_lit(
        lower,
        "voice memo",
    ) || eq_lit(lower, "call") || eq_lit(lower, "conversation") || eq_lit(lower, "note")
}

/// Executable `context_title`.
fn context_title_chars(context: &[char]) -> (r: Option<Vec<char>>)
    ensures
        text::opt_seq(r) == context_title(context@),
{
    let cleaned = normalize_space_chars(context);
    if cleaned.len() == 0 {
        return None;
    }
    let lower = to_lowercase_chars(cleaned.as_slice());
    if is_generic_context_exec(lower.as_slice()) {
        return None;
    }
    Some(display_title_exec(cleaned.as_slice()))
}

/// The title a context note gives, unless it is empty or generic
/// ("meeting", "call", ...).
pub fn title_from_context(context: &str) -> (r: Option<String>)
    ensures
        text::opt_string(r) == context_title(context@),
{
    let cs = chars_of(context);
    match context_title_chars(cs.as_slice()) {
        Some(v) => Some(string_of(v.as_slice())),
        None => None,
    }
}

/// Executable `transcript_title`.
fn transcript_title_chars(transcript: &[char]) -> (r: Option<Vec<char>>)
    ensures
        text::opt_seq(r) == transcript_title(transcript@),
{
    let ls = lines_of(transcript);
    match first_cleaned_exec(&ls) {
        None => None,
        Some(first) => {
            let stripped = strip_lead_in_chars(first.as_slice());
            let candidate = normalize_space_chars(stripped.as_slice());
            if candidate.len() == 0 || mostly_non_latin_exec(candidate.as_slice()) {
                None
            } else {
                Some(display_title_exec(candidate.as_slice()))
            }
        },
    }
}

/// The title the first meaningful transcript line gives; `None` when there
/// is none or it is mostly non-Latin text.
pub fn title_from_transcript(transcript: &str) -> (r: Option<String>)
    ensures
        text::opt_string(r) == transcript_title(transcript@),
{
    let cs = chars_of(transcript);
    match transcript_title_chars(cs.as_slice()) {
        Some(v) => Some(string_of(v.as_slice())),
        None => None,
    }
}

/// The title of a recording: from the context note when it is specific,
/// else from the transcript, else "Untitled Recording"; at most 60
/// characters.
pub fn generate_title(transcript: &str, pre_context: Option<&str>) -> (r: String)
    ensures
        r@ == generated_title(transcript@, opt_view(pre_context)),
{
    let from_context = match pre_context {
        Some(c) => {
            let cs = chars_of(c);
            context_title_chars(cs.as_slice())
        },
        None => None,
    };
    match from_context {
        Some(t) => string_of(finalize_title_chars(t).as_slice()),
        None => {
            let cs = chars_of(transcript);
            match transcript_title_chars(cs.as_slice()) {
                Some(t) => string_of(finalize_title_chars(t).as_slice()),
                None => String::from_str("Untitled Recording"),
            }
        },
    }
}

/// Generated titles are short: at most 60 characters, whatever the
/// transcript and context note.
pub proof fn generated_titles_are_short(transcript: Seq<char>, pre_context: Option<Seq<char>>)
    ensures
        generated_title(transcript, pre_context).len() <= 60,
{
    reveal_strlit("Untitled Recording");
    reveal_strlit("...");
}

/// The conversational openings a spoken first line may start with:
/// "we need to discuss", "let's talk about" and the like.
pub open spec fn conversational_openings() -> Seq<Seq<char>> {
    seq![
        "we need to discuss "@,
        "let's talk about "@,
        "lets talk about "@,
        "let's discuss "@,
        "lets discuss "@,
        "i just had an idea about "@,
        "i had an idea about "@,
        "this is about "@,
        "today we're talking about "@,
        "today we are talking about "@,
        "we're talking about "@,
        "we are talking about "@,
        "we should talk about "@,
        "we should discuss "@,
        "i want to talk about "@,
        "i want to discuss "@,
    ]
}

/// Every conversational opening is recognized as a lead-in, and only
/// those: lowercased text that starts with one of them has a lead-in whose
/// length is that of an opening it starts with, and a lead-in is only ever
/// found where such an opening starts the text.
pub proof fn lead_ins_are_the_openings(lower: Seq<char>, i: int)
    ensures
        0 <= i < conversational_openings().len() && text::has_prefix(lower, conversational_openings()[i])
            ==> lead_in_len(lower) is Some,
        lead_in_len(lower) matches Some(n) ==> exists|j: int|
            0 <= j < conversational_openings().len() && text::has_prefix(lower, #[trigger] conversational_openings()[j])
                && n == conversational_openings()[j].len(),
{
    let l = conversational_openings();
    assert(l[0] == "we need to discuss "@);
    assert(l[1] == "let's talk about "@);
    assert(l[2] == "lets talk about "@);
    assert(l[3] == "let's discuss "@);
    assert(l[4] == "lets discuss "@);
    assert(l[5] == "i just had an idea about "@);
    assert(l[6] == "i had an idea about "@);
    assert(l[7] == "this is about "@);
    assert(l[8] == "today we're talking about "@);
    assert(l[9] == "today we are talking about "@);
    assert(l[10] == "we're talking about "@);
    assert(l[11] == "we are talking about "@);
    assert(l[12] == "we should talk about "@);
    assert(l[13] == "we should discuss "@);
    assert(l[14] == "i want to talk about "@);
    assert(l[15] == "i want to discuss "@);
    if lead_in_len(lower) is Some {
        if text::has_prefix(lower, l[0]) {
            assert(lead_in_len(lower) matches Some(n) && (n == l[0].len() || exists|j: int| 0 <= j < 0 && text::has_prefix(lower, l[j]) && n == l[j].len()));
        }
        if text::has_prefix(lower, l[1]) {
            assert(lead_in_len(lower) matches Some(n) && (n == l[1].len() || exists|j: int| 0 <= j < 1 && text::has_prefix(lower, l[j]) && n == l[j].len()));
        }
        if text::has_prefix(lower, l[2]) {
            assert(lead_in_len(lower) matches Some(n) && (n == l[2].len() || exists|j: int| 0 <= j < 2 && text::has_prefix(lower, l[j]) && n == l[j].len()));
        }
        if text::has_prefix(lower, l[3]) {
            assert(lead_in_len(lower) matches Some(n) && (n == l[3].len() || exists|j: int| 0 <= j < 3 && text::has_prefix(lower, l[j]) && n == l[j].len()));
        }
        if text::has_prefix(lower, l[4]) {
            assert(lead_in_len(lower) matches Some(n) && (n == l[4].len() || exists|j: int| 0 <= j < 4 && text::has_prefix(lower, l[j]) && n == l[j].len()));
        }
        if text::has_prefix(lower, l[5]) {
            assert(lead_in_len(lower) matches Some(n) && (n == l[5].len() || exists|j: int| 0 <= j < 5 && text::has_prefix(lower, l[j]) && n == l[j].len()));
        }
        if text::has_prefix(lower, l[6]) {
            assert(lead_in_len(lower) matches Some(n) && (n == l[6].len() || exists|j: int| 0 <= j < 6 && text::has_prefix(lower, l[j]) && n == l[j].len()));
        }
        if text::has_prefix(lower, l[7]) {
            assert(lead_in_len(lower) matches Some(n) && (n == l[7].len() || exists|j: int| 0 <= j < 7 && text::has_prefix(lower, l[j]) && n == l[j].len()));
        }
        if text::has_prefix(lower, l[8]) {
            assert(lead_in_len(lower) matches Some(n) && (n == l[8].len() || exists|j: int| 0 <= j < 8 && text::has_prefix(lower, l[j]) && n == l[j].len()));
        }
        if text::has_prefix(lower, l[9]) {
            assert(lead_in_len(lower) matches Some(n) && (n == l[9].len() || exists|j: int| 0 <= j < 9 && text::has_prefix(lower, l[j]) && n == l[j].len()));
        }
        if text::has_prefix(lower, l[10]) {
            assert(lead_in_len(lower) matches Some(n) && (n == l[10].len() || exists|j: int| 0 <= j < 10 && text::has_prefix(lower, l[j]) && n == l[j].len()));
        }
        if text::has_prefix(lower, l[11]) {
            assert(lead_in_len(lower) matches Some(n) && (n == l[11].len() || exists|j: int| 0 <= j < 11 && text::has_prefix(lower, l[j]) && n == l[j].len()));
        }
        if text::has_prefix(lower, l[12]) {
            assert(lead_in_len(lower) matches Some(n) && (n == l[12].len() || exists|j: int| 0 <= j < 12 && text::has_prefix(lower, l[j]) && n == l[j].len()));
        }
        if text::has_prefix(lower, l[13]) {
            assert(lead_in_len(lower) matches Some(n) && (n == l[13].len() || exists|j: int| 0 <= j < 13 && text::has_prefix(lower, l[j]) && n == l[j].len()));
        }
        if text::has_prefix(lower, l[14]) {
            assert(lead_in_len(lower) matches Some(n) && (n == l[14].len() || exists|j: int| 0 <= j < 14 && text::has_prefix(lower, l[j]) && n == l[j].len()));
        }
        if text::has_prefix(lower, l[15]) {
            assert(lead_in_len(lower) matches Some(n) && (n == l[15].len() || exists|j: int| 0 <= j < 15 && text::has_prefix(lower, l[j]) && n == l[j].len()));
        }
    }
}

} // verus!

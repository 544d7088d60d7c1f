//! Meeting files as the desktop app shows them: their sections, titles
//! taken from file names, the active-meeting marker, and the assistant
//! terminal's titles and prompts.

use crate::app_state::OutputNotice;
use crate::daily_notes;
use crate::intents::Summary;
use crate::numbers;
use crate::paths;
use crate::platform::Platform;
use crate::search;
use crate::text;
use vstd::prelude::*;

verus! {

/// One `## ` section of a meeting file.
#[derive(Debug, Clone)]
pub struct MeetingSection {
    pub heading: String,
    pub content: String,
}

/// A speaker attribution as the frontend shows it.
#[derive(Debug, Clone)]
pub struct SpeakerAttributionView {
    pub speaker_label: String,
    pub name: String,
    pub confidence: String,
    pub source: String,
}

/// An action item as the frontend shows it.
#[derive(Debug, Clone)]
pub struct ActionItemView {
    pub assignee: String,
    pub task: String,
    pub due: Option<String>,
    pub status: String,
}

/// A decision as the frontend shows it.
#[derive(Debug, Clone)]
pub struct DecisionView {
    pub text: String,
    pub topic: Option<String>,
}

/// Everything the frontend shows about one meeting.
#[derive(Debug, Clone)]
pub struct MeetingDetail {
    pub path: String,
    pub title: String,
    pub date: String,
    pub duration: String,
    pub content_type: String,
    pub status: Option<String>,
    pub context: Option<String>,
    pub attendees: Vec<String>,
    pub calendar_event: Option<String>,
    pub action_items: Vec<ActionItemView>,
    pub decisions: Vec<DecisionView>,
    pub sections: Vec<MeetingSection>,
    pub speaker_map: Vec<SpeakerAttributionView>,
}

/// A section as text: heading and content.
pub type SectionView = (Seq<char>, Seq<char>);

/// The content of a section from its lines: joined by newlines, trimmed.
pub open spec fn section_content(lines: Seq<Seq<char>>) -> Seq<char> {
    text::trim(text::join(lines, seq!['\n']))
}

/// The sections finished, the heading being read, and its lines so far,
/// after reading `ls` in order: a `"## "` line closes the section being
/// read and starts one headed by the rest of the line, trimmed; other lines
/// belong to the section being read, and are dropped before the first
/// heading.
pub open spec fn section_state(ls: Seq<Seq<char>>) -> (Seq<SectionView>, Option<Seq<char>>, Seq<Seq<char>>)
    decreases ls.len(),
{
    if ls.len() == 0 {
        (Seq::empty(), None, Seq::empty())
    } else {
        let (done, heading, cur) = section_state(ls.drop_last());
        let line = ls.last();
        if text::has_prefix(line, daily_notes::h2()) {
            let closed = match heading {
                Some(h) => done.push((h, section_content(cur))),
                None => done,
            };
            (closed, Some(text::trim(line.skip(3))), Seq::empty())
        } else if heading is Some {
            (done, heading, cur.push(line))
        } else {
            (done, heading, cur)
        }
    }
}

/// The `## ` sections of a meeting body, in order.
pub open spec fn sections_of(body: Seq<char>) -> Seq<SectionView> {
    let (done, heading, cur) = section_state(text::lines(body));
    match heading {
        Some(h) => done.push((h, section_content(cur))),
        None => done,
    }
}

/// The sections as text.
pub open spec fn section_views(s: Seq<MeetingSection>) -> Seq<SectionView> {
    Seq::new(s.len(), |i: int| (s[i].heading@, s[i].content@))
}

fn close_section(sections: &mut Vec<MeetingSection>, heading: Vec<char>, cur: &Vec<Vec<char>>)
    ensures
        section_views(final(sections)@) == section_views(old(sections)@).push(
            (heading@, section_content(text::views(cur@))),
        ),
{
    let nl = vec!['\n'];
    assert(nl@ =~= seq!['\n']);
    let joined = text::join_chars(cur, nl.as_slice());
    let content = text::trim_chars(joined.as_slice());
    let ghost before = section_views(sections@);
    sections.push(MeetingSection {
        heading: text::string_of(heading.as_slice()),
        content: text::string_of(content.as_slice()),
    });
    assert(section_views(sections@) =~= before.push((heading@, section_content(text::views(cur@)))));
}

/// `sections_of(body)`.
pub fn parse_sections(body: &str) -> (r: Vec<MeetingSection>)
    ensures
        section_views(r@) == sections_of(body@),
{
    let ls = text::lines_of(text::chars_of(body).as_slice());
    let ghost lv = text::views(ls@);
    let h2 = vec!['#', '#', ' '];
    assert(h2@ =~= daily_notes::h2());
    let mut sections: Vec<MeetingSection> = Vec::new();
    let mut heading: Option<Vec<char>> = None;
    let mut cur: Vec<Vec<char>> = Vec::new();
    let mut i: usize = 0;
    assert(lv.take(0) =~= Seq::<Seq<char>>::empty());
    assert(section_views(sections@) =~= Seq::<SectionView>::empty());
    assert(text::views(cur@) =~= Seq::<Seq<char>>::empty());
    while i < ls.len()
        invariant
            i <= ls@.len(),
            lv == text::views(ls@),
            lv == text::lines(body@),
            h2@ == daily_notes::h2(),
            (section_views(sections@), text::opt_seq(heading), text::views(cur@)) == section_state(
                lv.take(i as int),
            ),
        decreases ls@.len() - i,
    {
        assert(lv.take(i + 1).drop_last() =~= lv.take(i as int));
        assert(lv.take(i + 1).last() == ls@[i as int]@);
        let line = &ls[i];
        if text::starts_with(line.as_slice(), h2.as_slice()) {
            match heading {
                Some(h) => {
                    close_section(&mut sections, h, &cur);
                },
                None => {},
            }
            let rest = text::copy_range(line.as_slice(), 3, line.len());
            assert(rest@ =~= line@.skip(3));
            heading = Some(text::trim_chars(rest.as_slice()));
            cur = Vec::new();
            assert(text::views(cur@) =~= Seq::<Seq<char>>::empty());
        } else if heading.is_some() {
            let ghost before = text::views(cur@);
            cur.push(text::copy_range(line.as_slice(), 0, line.len()));
            assert(line@.subrange(0, line@.len() as int) =~= line@);
            assert(text::views(cur@) =~= before.push(line@));
        }
        i = i + 1;
    }
    assert(lv.take(ls@.len() as int) =~= lv);
    match heading {
        Some(h) => {
            close_section(&mut sections, h, &cur);
        },
        None => {},
    }
    sections
}

/// `s` with every `'-'` made a space.
pub open spec fn dashes_to_spaces(s: Seq<char>) -> Seq<char> {
    Seq::new(s.len(), |i: int| if s[i] == '-' { ' ' } else { s[i] })
}

fn dashes_to_spaces_exec(s: &[char]) -> (r: Vec<char>)
    ensures
        r@ == dashes_to_spaces(s@),
{
    let mut r: Vec<char> = Vec::new();
    let mut i: usize = 0;
    while i < s.len()
        invariant
            i <= s@.len(),
            r@ == dashes_to_spaces(s@.take(i as int)),
        decreases s@.len() - i,
    {
        let c = if s[i] == '-' {
            ' '
        } else {
            s[i]
        };
        r.push(c);
        assert(dashes_to_spaces(s@.take(i + 1)) =~= dashes_to_spaces(s@.take(i as int)).push(c));
        i = i + 1;
    }
    assert(s@.take(s@.len() as int) =~= s@);
    r
}

/// The title of a meeting file: its stem with dashes made spaces, or
/// `"Meeting Discussion"` when the path has no file name.
pub open spec fn title_from_path(path: Seq<char>) -> Seq<char> {
    match paths::file_stem(path) {
        Some(stem) => dashes_to_spaces(stem),
        None => "Meeting Discussion"@,
    }
}

/// `title_from_path(path)`.
pub fn meeting_title_from_path(path: &str) -> (r: String)
    ensures
        r@ == title_from_path(path@),
{
    match paths::file_name_of(text::chars_of(path).as_slice()) {
        Some(name) => {
            let stem = paths::stem_chars(name.as_slice());
            text::string_of(dashes_to_spaces_exec(stem.as_slice()).as_slice())
        },
        None => String::from_str("Meeting Discussion"),
    }
}

/// The title of a recoverable capture: its stem with dashes made spaces,
/// trimmed, or `fallback` when that leaves nothing.
pub open spec fn recovery_title_of(path: Seq<char>, fallback: Seq<char>) -> Seq<char> {
    match paths::file_stem(path) {
        Some(stem) => {
            let t = text::trim(dashes_to_spaces(stem));
            if t.len() > 0 {
                t
            } else {
                fallback
            }
        },
        None => fallback,
    }
}

/// `recovery_title_of(path, fallback)`.
pub fn recovery_title(path: &str, fallback: &str) -> (r: String)
    ensures
        r@ == recovery_title_of(path@, fallback@),
{
    match paths::file_name_of(text::chars_of(path).as_slice()) {
        Some(name) => {
            let stem = paths::stem_chars(name.as_slice());
            let t = text::trim_chars(dashes_to_spaces_exec(stem.as_slice()).as_slice());
            if t.len() > 0 {
                text::string_of(t.as_slice())
            } else {
                fallback.to_owned()
            }
        },
        None => fallback.to_owned(),
    }
}

/// Whether the file's name starts with a dot.
pub fn is_hidden_or_system_file(path: &str) -> (r: bool)
    ensures
        r == match paths::file_name(path@) {
            Some(n) => n.len() > 0 && n[0] == '.',
            None => false,
        },
{
    match paths::file_name_of(text::chars_of(path).as_slice()) {
        Some(name) => name.len() > 0 && name[0] == '.',
        None => false,
    }
}

/// Whether an attendee's first name (lowercased) has a prep file.
pub open spec fn has_prep(attendees: Seq<Seq<char>>, prep_slugs: Seq<Seq<char>>) -> bool {
    exists|i: int|
        0 <= i < attendees.len() && prep_slugs.contains(
            text::lowercase(first_word(#[trigger] attendees[i])),
        )
}

/// The first whitespace-separated word of `name`, or `name` when it has
/// none.
pub open spec fn first_word(name: Seq<char>) -> Seq<char> {
    if text::words(name).len() > 0 {
        text::words(name)[0]
    } else {
        name
    }
}

fn strings_contain(v: &Vec<String>, x: &[char]) -> (r: bool)
    ensures
        r == text::string_views(v@).contains(x@),
{
    let ghost sv = text::string_views(v@);
    let mut i: usize = 0;
    while i < v.len()
        invariant
            i <= v@.len(),
            sv == text::string_views(v@),
            forall|k: int| 0 <= k < i ==> sv[k] != x@,
        decreases v@.len() - i,
    {
        assert(sv[i as int] == v@[i as int]@);
        if text::chars_eq(text::chars_of(v[i].as_str()).as_slice(), x) {
            return true;
        }
        i = i + 1;
    }
    false
}

/// Whether any attendee's first name, lowercased, is one of `prep_slugs`.
pub fn meeting_has_prep(attendees: &Vec<String>, prep_slugs: &Vec<String>) -> (r: bool)
    ensures
        r == has_prep(text::string_views(attendees@), text::string_views(prep_slugs@)),
{
    let ghost av = text::string_views(attendees@);
    let ghost sv = text::string_views(prep_slugs@);
    let mut i: usize = 0;
    while i < attendees.len()
        invariant
            i <= attendees@.len(),
            av == text::string_views(attendees@),
            sv == text::string_views(prep_slugs@),
            forall|k: int| 0 <= k < i ==> !sv.contains(text::lowercase(first_word(#[trigger] av[k]))),
        decreases attendees@.len() - i,
    {
        let name = text::chars_of(attendees[i].as_str());
        assert(av[i as int] == name@);
        let ws = text::split_whitespace(name.as_slice());
        let first = if ws.len() > 0 {
            assert(text::views(ws@)[0] == ws@[0]@);
            text::copy_range(ws[0].as_slice(), 0, ws[0].len())
        } else {
            name
        };
        proof {
            if ws@.len() > 0 {
                assert(ws@[0]@.subrange(0, ws@[0]@.len() as int) =~= ws@[0]@);
            }
        }
        let low = text::to_lowercase_chars(first.as_slice());
        if strings_contain(prep_slugs, low.as_slice()) {
            return true;
        }
        i = i + 1;
    }
    false
}

/// A setting that may be left blank: its trimmed text, or none when blank.
pub fn parse_optional_string_setting(value: &str) -> (r: Option<String>)
    ensures
        text::trim(value@).len() == 0 ==> r is None,
        text::trim(value@).len() > 0 ==> (r matches Some(v) && v@ == text::trim(value@)),
{
    let t = text::trim_chars(text::chars_of(value).as_slice());
    if t.len() == 0 {
        None
    } else {
        Some(text::string_of(t.as_slice()))
    }
}

/// The path of a link `[label](path)` in `line` when it ends in `.md`.
pub open spec fn link_md_path(line: Seq<char>) -> Option<Seq<char>> {
    match text::find(line, seq![']', '(']) {
        Some(start) => {
            let rest = line.skip(start + 2 as int);
            match text::find(rest, seq![')']) {
                Some(end) => {
                    let path = rest.take(end as int);
                    if text::has_suffix(path, ".md"@) {
                        Some(path)
                    } else {
                        None
                    }
                },
                None => None,
            }
        },
        None => None,
    }
}

/// The path of a `path: /abs/path.md` line (quotes dropped) when it ends in
/// `.md`.
pub open spec fn prefixed_md_path(line: Seq<char>) -> Option<Seq<char>> {
    if text::has_prefix(line, "path:"@) {
        let v = text::trim_by(
            text::trim_by(text::trim(line.skip(5)), text::one_of(seq!['"'])),
            text::one_of(seq!['\'']),
        );
        if text::has_suffix(v, ".md"@) {
            Some(v)
        } else {
            None
        }
    } else {
        None
    }
}

/// The meeting path a line of the active-meeting marker names: a markdown
/// link to a `.md` file, a `path:` line, or a bare absolute `.md` path,
/// tried in that order.
pub open spec fn marker_path(line: Seq<char>) -> Option<Seq<char>> {
    if link_md_path(line) is Some {
        link_md_path(line)
    } else if prefixed_md_path(line) is Some {
        prefixed_md_path(line)
    } else if text::has_suffix(line, ".md"@) && text::has_prefix(line, "/"@) {
        Some(line)
    } else {
        None
    }
}

/// `marker_path(line)`.
pub fn extract_current_meeting_path(line: &str) -> (r: Option<String>)
    ensures
        text::opt_string(r) == marker_path(line@),
{
    let l = text::chars_of(line);
    let md = text::lit_chars(".md");
    let open = vec![']', '('];
    assert(open@ =~= seq![']', '(']);
    proof {
        text::lemma_find_from_bounds(l@, open@, 0);
    }
    match text::find_chars(l.as_slice(), open.as_slice(), 0) {
        Some(start) => {
            let n = l.len();
            let rest = text::copy_range(l.as_slice(), start + 2, n);
            assert(rest@ =~= l@.skip(start + 2));
            let close = vec![')'];
            assert(close@ =~= seq![')']);
            proof {
                text::lemma_find_from_bounds(rest@, close@, 0);
            }
            match text::find_chars(rest.as_slice(), close.as_slice(), 0) {
                Some(end) => {
                    let path = text::copy_range(rest.as_slice(), 0, end);
                    assert(path@ =~= rest@.take(end as int));
                    if text::ends_with(path.as_slice(), md.as_slice()) {
                        return Some(text::string_of(path.as_slice()));
                    }
                },
                None => {},
            }
        },
        None => {},
    }
    match text::prefix_len_if(l.as_slice(), "path:") {
        Some(k) => {
            proof {
                reveal_strlit("path:");
            }
            let rest = text::copy_range(l.as_slice(), k, l.len());
            assert(rest@ =~= l@.skip(5));
            let t = text::trim_chars(rest.as_slice());
            let dq = vec!['"'];
            let sq = vec!['\''];
            assert(dq@ =~= seq!['"']);
            assert(sq@ =~= seq!['\'']);
            let t1 = text::trim_by_set(t.as_slice(), dq.as_slice());
            let t2 = text::trim_by_set(t1.as_slice(), sq.as_slice());
            if text::ends_with(t2.as_slice(), md.as_slice()) {
                return Some(text::string_of(t2.as_slice()));
            }
        },
        None => {},
    }
    if text::ends_with_lit(l.as_slice(), ".md") && text::starts_with_lit(l.as_slice(), "/") {
        return Some(line.to_owned());
    }
    None
}

/// Whether `command` (or its file name, for a path) is a shell.
pub open spec fn shell_command(command: Seq<char>) -> bool {
    let name = match paths::file_name(command) {
        Some(n) => n,
        None => command,
    };
    name == "bash"@ || name == "zsh"@ || name == "sh"@ || name == "fish"@
}

/// `shell_command(command)`.
pub fn is_shell_command(command: &str) -> (r: bool)
    ensures
        r == shell_command(command@),
{
    let c = text::chars_of(command);
    let name = match paths::file_name_of(c.as_slice()) {
        Some(n) => n,
        None => c,
    };
    text::eq_lit(name.as_slice(), "bash") || text::eq_lit(name.as_slice(), "zsh") || text::eq_lit(
        name.as_slice(),
        "sh",
    ) || text::eq_lit(name.as_slice(), "fish")
}

/// The assistant terminal's title for a mode: the assistant, or the
/// meeting being discussed (whose path meeting mode requires).
pub open spec fn terminal_title(mode: Seq<char>, meeting_path: Option<Seq<char>>) -> Result<Seq<char>, Seq<char>> {
    if mode == "assistant"@ {
        Ok("Minutes Assistant"@)
    } else if mode == "meeting"@ {
        match meeting_path {
            Some(p) => Ok("Discussing: "@ + title_from_path(p)),
            None => Err("meeting_path required for meeting mode"@),
        }
    } else {
        Err("Unknown mode: "@ + mode + ". Use 'meeting' or 'assistant'."@)
    }
}

/// The text of a result of strings.
pub open spec fn result_view(r: Result<String, String>) -> Result<Seq<char>, Seq<char>> {
    match r {
        Ok(v) => Ok(v@),
        Err(e) => Err(e@),
    }
}

/// `terminal_title(mode, meeting_path)`.
pub fn terminal_title_for_mode(mode: &str, meeting_path: Option<&str>) -> (r: Result<String, String>)
    ensures
        result_view(r) == terminal_title(mode@, daily_notes::opt_str(meeting_path)),
{
    let m = text::chars_of(mode);
    if text::eq_lit(m.as_slice(), "assistant") {
        Ok(String::from_str("Minutes Assistant"))
    } else if text::eq_lit(m.as_slice(), "meeting") {
        match meeting_path {
            Some(p) => {
                let mut t = String::from_str("Discussing: ");
                let title = meeting_title_from_path(p);
                t.append(title.as_str());
                Ok(t)
            },
            None => Err(String::from_str("meeting_path required for meeting mode")),
        }
    } else {
        Err(numbers::concat3("Unknown mode: ", mode, ". Use 'meeting' or 'assistant'."))
    }
}

/// What the assistant is told when its focus changes: the new meeting
/// (read from `CURRENT_MEETING.md` and the agent's instructions file
/// `guide`), or back to general mode; wrapped in a here-document when the
/// agent is a shell so the text is printed rather than run.
pub open spec fn switch_prompt(command: Seq<char>, mode: Seq<char>, title: Seq<char>, guide: Seq<char>) -> Seq<char> {
    let plain = if mode == "meeting"@ {
        "Minutes changed focus to "@ + title + ". Read CURRENT_MEETING.md and "@ + guide
            + ", then help with that meeting."@
    } else {
        "Minutes cleared the active meeting focus. Resume general assistant mode and reread "@ + guide
            + " if needed."@
    };
    if shell_command(command) {
        "cat <<'__MINUTES__'\n"@ + plain + "\n__MINUTES__\n"@
    } else {
        plain + "\n"@
    }
}

/// `switch_prompt(command, mode, title, guide)`.
pub fn context_switch_prompt(command: &str, mode: &str, title: &str, guide: &str) -> (r: String)
    ensures
        r@ == switch_prompt(command@, mode@, title@, guide@),
{
    let plain = if text::eq_lit(text::chars_of(mode).as_slice(), "meeting") {
        numbers::concat5(
            "Minutes changed focus to ",
            title,
            ". Read CURRENT_MEETING.md and ",
            guide,
            ", then help with that meeting.",
        )
    } else {
        numbers::concat3(
            "Minutes cleared the active meeting focus. Resume general assistant mode and reread ",
            guide,
            " if needed.",
        )
    };
    if is_shell_command(command) {
        numbers::concat3("cat <<'__MINUTES__'\n", plain.as_str(), "\n__MINUTES__\n")
    } else {
        numbers::concat2(plain.as_str(), "\n")
    }
}

/// How one character is written inside an AppleScript string literal.
pub open spec fn applescript_char(c: char) -> Seq<char> {
    if c == '\\' {
        seq!['\\', '\\']
    } else if c == '"' {
        seq!['\\', '"']
    } else if c == '\n' {
        seq![' ']
    } else {
        seq![c]
    }
}

/// `s` escaped for an AppleScript string literal.
pub open spec fn applescript_escaped(s: Seq<char>) -> Seq<char>
    decreases s.len(),
{
    if s.len() == 0 {
        Seq::empty()
    } else {
        applescript_escaped(s.drop_last()) + applescript_char(s.last())
    }
}

/// Text for an AppleScript string literal: on macOS, backslashes doubled,
/// quotes escaped and newlines made spaces; elsewhere unchanged.
pub fn escape_applescript_literal(platform: Platform, value: &str) -> (r: String)
    ensures
        platform == Platform::MacOs ==> r@ == applescript_escaped(value@),
        platform != Platform::MacOs ==> r@ == value@,
{
    if platform != Platform::MacOs {
        return value.to_owned();
    }
    let v = text::chars_of(value);
    let mut out: Vec<char> = Vec::new();
    let mut i: usize = 0;
    while i < v.len()
        invariant
            i <= v@.len(),
            out@ == applescript_escaped(v@.take(i as int)),
        decreases v@.len() - i,
    {
        let c = v[i];
        if c == '\\' {
            out.push('\\');
            out.push('\\');
        } else if c == '"' {
            out.push('\\');
            out.push('"');
        } else if c == '\n' {
            out.push(' ');
        } else {
            out.push(c);
        }
        assert(v@.take(i + 1).drop_last() =~= v@.take(i as int));
        assert(out@ =~= applescript_escaped(v@.take(i as int)) + applescript_char(c));
        i = i + 1;
    }
    assert(v@.take(v@.len() as int) =~= v@);
    text::string_of(out.as_slice())
}

/// The first section whose heading is `heading` (ignoring ASCII case).
pub open spec fn first_section(ss: Seq<SectionView>, heading: Seq<char>) -> Option<SectionView>
    decreases ss.len(),
{
    if ss.len() == 0 {
        None
    } else if text::eq_ignore_ascii_case(ss[0].0, heading) {
        Some(ss[0])
    } else {
        first_section(ss.drop_first(), heading)
    }
}

/// The text to paste from an artifact: the trimmed content of its first
/// `Summary` or `Transcript` assistant_context::section (for the kinds `summary` and
/// `transcript`), when not empty.
pub open spec fn paste_text(content: Seq<char>, kind: Seq<char>) -> Result<Seq<char>, Seq<char>> {
    if kind != "summary"@ && kind != "transcript"@ {
        Err("Unsupported paste payload: "@ + kind + ". Use 'summary' or 'transcript'."@)
    } else {
        let heading = if kind == "summary"@ {
            "Summary"@
        } else {
            "Transcript"@
        };
        let body = search::frontmatter_split(content).1;
        match first_section(sections_of(body), heading) {
            Some(sec) => if text::trim(sec.1).len() > 0 {
                Ok(text::trim(sec.1))
            } else {
                Err("The latest artifact does not contain a "@ + kind + " section."@)
            },
            None => Err("The latest artifact does not contain a "@ + kind + " section."@),
        }
    }
}

/// The text to paste from an artifact; see `paste_text`.
pub fn extract_paste_text(content: &str, kind: &str) -> (r: Result<String, String>)
    ensures
        match paste_text(content@, kind@) {
            Ok(t) => r matches Ok(x) && x@ == t,
            Err(e) => r matches Err(x) && x@ == e,
        },
{
    let k = text::chars_of(kind);
    let is_summary = text::eq_lit(k.as_slice(), "summary");
    let is_transcript = text::eq_lit(k.as_slice(), "transcript");
    if !is_summary && !is_transcript {
        return Err(numbers::concat3("Unsupported paste payload: ", kind, ". Use 'summary' or 'transcript'."));
    }
    let heading = if is_summary {
        text::lit_chars("Summary")
    } else {
        text::lit_chars("Transcript")
    };
    let (_, body) = search::split_frontmatter(content);
    assert(body@ == search::frontmatter_split(content@).1);
    let sections = parse_sections(body.as_str());
    let ghost sv = sections_of(body@);
    let mut i: usize = 0;
    assert(sv.skip(0) =~= sv);
    while i < sections.len()
        invariant
            i <= sections@.len(),
            sv == section_views(sections@),
            sv == sections_of(search::frontmatter_split(content@).1),
            kind@ == "summary"@ || kind@ == "transcript"@,
            heading@ == (if kind@ == "summary"@ {
                "Summary"@
            } else {
                "Transcript"@
            }),
            first_section(sv, heading@) == first_section(sv.skip(i as int), heading@),
        decreases sections@.len() - i,
    {
        let sec = &sections[i];
        assert(sv[i as int] == (sec.heading@, sec.content@));
        assert(sv.skip(i as int)[0] == sv[i as int]);
        assert(sv.skip(i as int).drop_first() =~= sv.skip(i + 1));
        if text::eq_ignore_ascii_case_exec(text::chars_of(sec.heading.as_str()).as_slice(), heading.as_slice()) {
            let t = text::trim_chars(text::chars_of(sec.content.as_str()).as_slice());
            if t.len() > 0 {
                return Ok(text::string_of(t.as_slice()));
            }
            return Err(numbers::concat3("The latest artifact does not contain a ", kind, " section."));
        }
        i = i + 1;
    }
    assert(sv.skip(i as int).len() == 0);
    Err(numbers::concat3("The latest artifact does not contain a ", kind, " section."))
}

/// Whether the latest notice is a saved artifact with a path to reuse.
pub fn saved_notice_path(notice: Option<&OutputNotice>) -> (r: Option<String>)
    ensures
        text::opt_string(r) == match notice {
            Some(n) => if n.kind@ == "saved"@ && text::trim(n.path@).len() > 0 {
                Some(n.path@)
            } else {
                None
            },
            None => None,
        },
{
    match notice {
        Some(n) => {
            if text::eq_lit(text::chars_of(n.kind.as_str()).as_slice(), "saved") && text::trim_chars(
                text::chars_of(n.path.as_str()).as_slice(),
            ).len() > 0 {
                Some(n.path.clone())
            } else {
                None
            }
        },
        None => None,
    }
}

/// The lifecycle badges of a meeting: `prepped` when an attendee has prep
/// notes, `recorded` when its body has a transcript or summary, and
/// `debriefed` when it has decisions or any intent that is not open.
pub fn lifecycle_badges(
    attendees: &Vec<String>,
    prep_slugs: &Vec<String>,
    body: &str,
    has_decisions: bool,
    intent_statuses: &Vec<String>,
) -> (r: Vec<String>)
    ensures
        text::string_views(r@) == (if has_prep(text::string_views(attendees@), text::string_views(prep_slugs@)) {
            seq!["prepped"@]
        } else {
            seq![]
        }) + (if text::contains(body@, "## Transcript"@) || text::contains(body@, "## Summary"@) {
            seq!["recorded"@]
        } else {
            seq![]
        }) + (if has_decisions || exists|i: int|
            0 <= i < intent_statuses@.len() && (#[trigger] intent_statuses@[i])@ != "open"@ {
            seq!["debriefed"@]
        } else {
            seq![]
        }),
{
    let mut r: Vec<String> = Vec::new();
    let ghost start = text::string_views(r@);
    assert(start =~= seq![]);
    if meeting_has_prep(attendees, prep_slugs) {
        r.push(String::from_str("prepped"));
    }
    let ghost a = text::string_views(r@);
    let b = text::chars_of(body);
    if text::find_chars(b.as_slice(), text::lit_chars("## Transcript").as_slice(), 0).is_some()
        || text::find_chars(b.as_slice(), text::lit_chars("## Summary").as_slice(), 0).is_some() {
        r.push(String::from_str("recorded"));
    }
    let ghost bb = text::string_views(r@);
    let mut resolved = false;
    let mut i: usize = 0;
    while i < intent_statuses.len()
        invariant
            i <= intent_statuses@.len(),
            resolved == exists|k: int| 0 <= k < i && (#[trigger] intent_statuses@[k])@ != "open"@,
        decreases intent_statuses@.len() - i,
    {
        if !text::eq_lit(text::chars_of(intent_statuses[i].as_str()).as_slice(), "open") {
            resolved = true;
        }
        i = i + 1;
    }
    if has_decisions || resolved {
        r.push(String::from_str("debriefed"));
    }
    assert(text::string_views(r@) =~= (if has_prep(text::string_views(attendees@), text::string_views(prep_slugs@)) {
        seq!["prepped"@]
    } else {
        seq![]
    }) + (if text::contains(body@, "## Transcript"@) || text::contains(body@, "## Summary"@) {
        seq!["recorded"@]
    } else {
        seq![]
    }) + (if has_decisions || resolved {
        seq!["debriefed"@]
    } else {
        seq![]
    }));
    r
}

/// The AppleScript that shows a notification when the notification
/// services fail: `body` as the text and `title` as the subtitle under
/// "Minutes", both escaped (this fallback runs on macOS).
pub fn notification_script(body: &str, title: &str) -> (r: String)
    ensures
        r@ == "display notification \""@ + applescript_escaped(body@) + "\" with title \"Minutes\" subtitle \""@
            + applescript_escaped(title@) + "\""@,
{
    let b = escape_applescript_literal(Platform::MacOs, body);
    let t = escape_applescript_literal(Platform::MacOs, title);
    numbers::concat5(
        "display notification \"",
        b.as_str(),
        "\" with title \"Minutes\" subtitle \"",
        t.as_str(),
        "\"",
    )
}

/// The meeting paths the lines of the current-meeting marker name, in
/// order: blank lines and `#` lines are skipped and each other trimmed
/// line gives its `marker_path`, if any.
pub open spec fn marker_candidates(ls: Seq<Seq<char>>) -> Seq<Seq<char>>
    decreases ls.len(),
{
    if ls.len() == 0 {
        Seq::empty()
    } else {
        let prev = marker_candidates(ls.drop_last());
        let t = text::trim(ls.last());
        if t.len() == 0 || t[0] == '#' {
            prev
        } else {
            match marker_path(t) {
                Some(p) => prev.push(p),
                None => prev,
            }
        }
    }
}

/// The paths the current-meeting marker `contents` names, first line
/// first; the first of them that is an existing file is the current
/// meeting.
pub fn current_meeting_candidates(contents: &str) -> (r: Vec<String>)
    ensures
        text::string_views(r@) == marker_candidates(text::lines(contents@)),
{
    let ls = text::lines_of(text::chars_of(contents).as_slice());
    let ghost lv = text::views(ls@);
    let mut out: Vec<String> = Vec::new();
    let mut i: usize = 0;
    while i < ls.len()
        invariant
            i <= ls@.len(),
            lv == text::views(ls@),
            lv == text::lines(contents@),
            text::string_views(out@) == marker_candidates(lv.take(i as int)),
        decreases ls@.len() - i,
    {
        proof {
            assert(lv.take(i + 1).drop_last() =~= lv.take(i as int));
            assert(lv.take(i + 1).last() == lv[i as int]);
            assert(lv[i as int] == ls@[i as int]@);
        }
        let t = text::trim_chars(ls[i].as_slice());
        if t.len() == 0 || t[0] == '#' {
        } else {
            let line = text::string_of(t.as_slice());
            match extract_current_meeting_path(line.as_str()) {
                Some(p) => {
                    let ghost before = out@;
                    out.push(p);
                    proof {
                        assert(text::string_views(out@) =~= text::string_views(before).push(out@[out@.len() - 1]@));
                    }
                },
                None => {},
            }
        }
        i = i + 1;
    }
    proof {
        assert(lv.take(ls@.len() as int) =~= lv);
    }
    out
}

} // verus!

//! The briefing files of the assistant workspace: the general assistant
//! context (meeting directory, recent meetings, open intents, the CLI and
//! integrations) and the context of one meeting (its facts, decisions,
//! open intents and content, cut to a bounded length).

use crate::intents::{self, Decision, Intent, IntentKind};
use crate::markdown::{self, ContentType};
use crate::search::SearchResult;
use crate::text;
use vstd::prelude::*;

verus! {

/// The file in the workspace that holds the meeting in focus.
pub fn active_meeting_file() -> (r: &'static str)
    ensures
        r@ == "CURRENT_MEETING.md"@,
{
    "CURRENT_MEETING.md"
}

/// How many recent meetings the assistant context lists.
pub const RECENT_LIMIT: usize = 10;

/// How many open intents the assistant context lists.
pub const OPEN_INTENT_LIMIT: usize = 15;

/// How many characters of a meeting's content its context keeps.
pub const BODY_LIMIT: usize = 12000;

/// The pieces `ss` one after another.
pub open spec fn concat(ss: Seq<Seq<char>>) -> Seq<char> {
    text::join(ss, seq![])
}

/// Adding a piece adds its text at the end.
pub proof fn lemma_concat_push(ss: Seq<Seq<char>>, x: Seq<char>)
    ensures
        concat(ss.push(x)) == concat(ss) + x,
{
    if ss.len() == 0 {
        assert(ss.push(x).len() == 1);
        assert(concat(ss.push(x)) == x);
        assert(concat(ss) =~= Seq::<char>::empty());
        assert(concat(ss) + x =~= x);
    } else {
        assert(ss.push(x).drop_last() =~= ss);
        assert(concat(ss.push(x)) == concat(ss) + seq![] + x);
        assert(concat(ss) + seq![] =~= concat(ss));
    }
}

/// The label of an intent kind.
pub open spec fn kind_label(k: IntentKind) -> Seq<char> {
    match k {
        IntentKind::ActionItem => "action-item"@,
        IntentKind::Commitment => "commitment"@,
        IntentKind::Decision => "decision"@,
        IntentKind::OpenQuestion => "open-question"@,
    }
}

/// The label of an intent kind.
pub fn intent_label(kind: IntentKind) -> (r: &'static str)
    ensures
        r@ == kind_label(kind),
{
    match kind {
        IntentKind::ActionItem => "action-item",
        IntentKind::Commitment => "commitment",
        IntentKind::Decision => "decision",
        IntentKind::OpenQuestion => "open-question",
    }
}

/// `pre + x + post` when `o` is `Some(x)`, else nothing.
pub open spec fn optional(o: Option<Seq<char>>, pre: Seq<char>, post: Seq<char>) -> Seq<char> {
    match o {
        Some(x) => pre + x + post,
        None => seq![],
    }
}

/// A section: nothing without lines, else the heading, the lines and a
/// blank line.
pub open spec fn section(heading: Seq<char>, lines: Seq<Seq<char>>) -> Seq<char> {
    if lines.len() == 0 {
        seq![]
    } else {
        heading + concat(lines) + "\n"@
    }
}

/// The owner and due date of an intent line.
pub open spec fn intent_tail(who: Option<Seq<char>>, by: Option<Seq<char>>) -> Seq<char> {
    optional(who, " (@"@, ")"@) + optional(by, " — due "@, seq![]) + "\n"@
}

/// An intent as listed for one meeting.
pub open spec fn meeting_intent_line(i: (IntentKind, Seq<char>, Option<Seq<char>>, Seq<char>, Option<Seq<char>>)) -> Seq<
    char,
> {
    "- **"@ + kind_label(i.0) + "**: "@ + i.1 + intent_tail(i.2, i.4)
}

/// A decision as listed for one meeting.
pub open spec fn decision_line(d: (Seq<char>, Option<Seq<char>>)) -> Seq<char> {
    "- "@ + d.0 + optional(d.1, " (topic: "@, ")"@) + "\n"@
}

/// The view of a decision.
pub open spec fn decision_view(d: Decision) -> (Seq<char>, Option<Seq<char>>) {
    (d.text@, text::opt_string(d.topic))
}

/// The open intents among `v`, in order.
pub open spec fn open_intents(v: Seq<(IntentKind, Seq<char>, Option<Seq<char>>, Seq<char>, Option<Seq<char>>)>) -> Seq<
    (IntentKind, Seq<char>, Option<Seq<char>>, Seq<char>, Option<Seq<char>>),
> {
    v.filter(|i: (IntentKind, Seq<char>, Option<Seq<char>>, Seq<char>, Option<Seq<char>>)| i.3 == "open"@)
}

/// What a meeting's context shows of its frontmatter.
#[derive(Debug)]
pub struct MeetingFacts {
    pub title: String,
    /// The date as shown (`"April 08, 2026 09:30"`).
    pub date: String,
    pub duration: String,
    pub content_type: ContentType,
    pub attendees: Vec<String>,
    pub context: Option<String>,
    pub calendar_event: Option<String>,
    pub decisions: Vec<Decision>,
    pub intents: Vec<Intent>,
}

/// A meeting's content as its context keeps it: the first 12000
/// characters and a truncation note when longer.
pub open spec fn kept_body(body: Seq<char>) -> Seq<char> {
    if body.len() > BODY_LIMIT {
        body.take(BODY_LIMIT as int) + "\n\n...[transcript truncated — read the full file for the rest]\n"@
    } else {
        body
    }
}

/// The facts block of a meeting's context.
pub open spec fn facts_text(f: MeetingFacts) -> Seq<char> {
    "## "@ + f.title@ + "\n"@ + "- **Date**: "@ + f.date@ + "\n"@ + "- **Duration**: "@ + f.duration@ + "\n"@
        + "- **Type**: "@ + markdown::content_type_name(f.content_type) + "\n"@ + (if f.attendees@.len() > 0 {
        "- **Attendees**: "@ + text::join(text::string_views(f.attendees@), ", "@) + "\n"@
    } else {
        seq![]
    }) + optional(text::opt_string(f.context), "- **Context**: "@, "\n"@) + optional(
        text::opt_string(f.calendar_event),
        "- **Calendar**: "@,
        "\n"@,
    ) + "\n"@
}

/// Where the meeting's content is and the content as kept.
pub open spec fn content_text(meeting_path: Seq<char>, body: Seq<char>) -> Seq<char> {
    "## Full Content\n\n"@ + "The complete meeting transcript follows. It is also available at:\n"@ + "`"@ + meeting_path
        + "`\n\n"@ + kept_body(body)
}

/// The instructions closing a meeting's context.
pub open spec fn instructions_text(output_dir: Seq<char>) -> Seq<char> {
    "\n\n## Instructions\n\n"@ + "- Answer questions about this meeting\n"@
        + "- Help draft follow-up messages based on the discussion\n"@ + "- Extract key takeaways the user might have missed\n"@
        + "- All meetings are at `"@ + output_dir + "` if you need to cross-reference\n"@
        + "- You can create files in this directory to save artifacts\n"@
}

/// The decisions section of a meeting's context.
pub open spec fn decisions_text(f: MeetingFacts) -> Seq<char> {
    section("## Decisions Made\n"@, f.decisions@.map_values(|d: Decision| decision_line(decision_view(d))))
}

/// The open intents section of a meeting's context.
pub open spec fn open_intents_text(f: MeetingFacts) -> Seq<char> {
    section(
        "## Open Action Items\n"@,
        open_intents(intents::intent_views(f.intents@)).map_values(
            |i: (IntentKind, Seq<char>, Option<Seq<char>>, Seq<char>, Option<Seq<char>>)| meeting_intent_line(i),
        ),
    )
}

/// The context of one meeting (at `meeting_path`, with content `body`) for
/// the assistant; `output_dir` holds all meetings.
pub open spec fn meeting_context_text(f: MeetingFacts, meeting_path: Seq<char>, body: Seq<char>, output_dir: Seq<char>) -> Seq<
    char,
> {
    "# Meeting Context\n\n"@ + "You are helping the user analyze a specific meeting recording.\n\n"@ + facts_text(f)
        + decisions_text(f) + open_intents_text(f) + content_text(meeting_path, body) + instructions_text(output_dir)
}

fn put(v: &mut Vec<char>, s: &str)
    ensures
        final(v)@ == old(v)@ + s@,
{
    let cs = text::chars_of(s);
    text::append_chars(v, cs.as_slice());
}

fn put_optional(v: &mut Vec<char>, o: &Option<String>, pre: &str, post: &str)
    ensures
        final(v)@ == old(v)@ + optional(text::opt_string(*o), pre@, post@),
{
    match o {
        Some(x) => {
            put(v, pre);
            put(v, x.as_str());
            put(v, post);
        },
        None => {
            assert(old(v)@ + optional(text::opt_string(*o), pre@, post@) =~= old(v)@);
        },
    }
}

fn intent_tail_chars(v: &mut Vec<char>, who: &Option<String>, by: &Option<String>)
    ensures
        final(v)@ == old(v)@ + intent_tail(text::opt_string(*who), text::opt_string(*by)),
{
    let ghost start = v@;
    put_optional(v, who, " (@", ")");
    let ghost mid = v@;
    match by {
        Some(b) => {
            put(v, " — due ");
            put(v, b.as_str());
        },
        None => {},
    }
    assert(v@ =~= mid + optional(text::opt_string(*by), " — due "@, seq![]));
    put(v, "\n");
    assert(v@ =~= start + intent_tail(text::opt_string(*who), text::opt_string(*by)));
}

fn decision_lines(ds: &Vec<Decision>) -> (r: Vec<char>)
    ensures
        r@ == concat(ds@.map_values(|d: Decision| decision_line(decision_view(d)))),
{
    let ghost lines = ds@.map_values(|d: Decision| decision_line(decision_view(d)));
    let mut r: Vec<char> = Vec::new();
    let mut i: usize = 0;
    assert(lines.take(0) =~= Seq::<Seq<char>>::empty());
    assert(concat(lines.take(0)) =~= Seq::<char>::empty());
    while i < ds.len()
        invariant
            i <= ds@.len(),
            lines == ds@.map_values(|d: Decision| decision_line(decision_view(d))),
            r@ == concat(lines.take(i as int)),
        decreases ds@.len() - i,
    {
        let ghost before = r@;
        let d = &ds[i];
        put(&mut r, "- ");
        put(&mut r, d.text.as_str());
        put_optional(&mut r, &d.topic, " (topic: ", ")");
        put(&mut r, "\n");
        proof {
            assert(r@ =~= before + decision_line(decision_view(ds@[i as int])));
            assert(lines.take(i + 1) =~= lines.take(i as int).push(lines[i as int]));
            lemma_concat_push(lines.take(i as int), lines[i as int]);
        }
        i = i + 1;
    }
    assert(lines.take(i as int) =~= lines);
    r
}

fn open_intent_lines(is: &Vec<Intent>) -> (r: Vec<char>)
    ensures
        r@ == concat(
            open_intents(intents::intent_views(is@)).map_values(
                |i: (IntentKind, Seq<char>, Option<Seq<char>>, Seq<char>, Option<Seq<char>>)| meeting_intent_line(i),
            ),
        ),
{
    let ghost iv = intents::intent_views(is@);
    let ghost keep = |i: (IntentKind, Seq<char>, Option<Seq<char>>, Seq<char>, Option<Seq<char>>)| i.3 == "open"@;
    let ghost line = |i: (IntentKind, Seq<char>, Option<Seq<char>>, Seq<char>, Option<Seq<char>>)| meeting_intent_line(i);
    let mut r: Vec<char> = Vec::new();
    let mut i: usize = 0;
    reveal(Seq::filter);
    assert(iv.take(0).filter(keep) =~= Seq::empty());
    assert(concat(iv.take(0).filter(keep).map_values(line)) =~= Seq::<char>::empty());
    while i < is.len()
        invariant
            i <= is@.len(),
            iv == intents::intent_views(is@),
            iv.len() == is@.len(),
            keep == (|i: (IntentKind, Seq<char>, Option<Seq<char>>, Seq<char>, Option<Seq<char>>)| i.3 == "open"@),
            line == (|i: (IntentKind, Seq<char>, Option<Seq<char>>, Seq<char>, Option<Seq<char>>)| meeting_intent_line(i)),
            r@ == concat(iv.take(i as int).filter(keep).map_values(line)),
        decreases is@.len() - i,
    {
        let it = &is[i];
        assert(iv[i as int] == intents::intent_view(is@[i as int]));
        assert(iv.take(i + 1) =~= iv.take(i as int).push(iv[i as int]));
        assert(iv.take(i + 1).drop_last() =~= iv.take(i as int));
        reveal(Seq::filter);
        let is_open = text::eq_lit(text::chars_of(it.status.as_str()).as_slice(), "open");
        assert(keep(iv[i as int]) == is_open);
        if is_open {
            let ghost before = r@;
            put(&mut r, "- **");
            put(&mut r, intent_label(it.kind));
            put(&mut r, "**: ");
            put(&mut r, it.what.as_str());
            intent_tail_chars(&mut r, &it.who, &it.by_date);
            proof {
                assert(r@ =~= before + meeting_intent_line(iv[i as int]));
                assert(iv.take(i + 1).filter(keep) == iv.take(i as int).filter(keep).push(iv[i as int]));
                assert(iv.take(i + 1).filter(keep).map_values(line) =~= iv.take(i as int).filter(keep).map_values(
                    line,
                ).push(line(iv[i as int])));
                lemma_concat_push(iv.take(i as int).filter(keep).map_values(line), line(iv[i as int]));
            }
        } else {
            assert(iv.take(i + 1).filter(keep) == iv.take(i as int).filter(keep));
        }
        i = i + 1;
    }
    assert(iv.take(i as int) =~= iv);
    r
}

fn put_section(v: &mut Vec<char>, heading: &str, lines: &Vec<char>, count_nonzero: bool, ghost_lines: Ghost<Seq<Seq<char>>>)
    requires
        lines@ == concat(ghost_lines@),
        count_nonzero == (ghost_lines@.len() > 0),
    ensures
        final(v)@ == old(v)@ + section(heading@, ghost_lines@),
{
    if count_nonzero {
        put(v, heading);
        text::append_chars(v, lines.as_slice());
        put(v, "\n");
    } else {
        assert(old(v)@ + section(heading@, ghost_lines@) =~= old(v)@);
    }
}

fn facts_block(facts: &MeetingFacts) -> (r: Vec<char>)
    ensures
        r@ == facts_text(*facts),
{
    let mut md: Vec<char> = Vec::new();
    put(&mut md, "## ");
    put(&mut md, facts.title.as_str());
    put(&mut md, "\n");
    put(&mut md, "- **Date**: ");
    put(&mut md, facts.date.as_str());
    put(&mut md, "\n");
    put(&mut md, "- **Duration**: ");
    put(&mut md, facts.duration.as_str());
    put(&mut md, "\n");
    put(&mut md, "- **Type**: ");
    let ct = markdown::content_type_label(facts.content_type);
    put(&mut md, ct.as_str());
    put(&mut md, "\n");
    let ghost head = md@;
    let attendees = attendees_line(&facts.attendees);
    text::append_chars(&mut md, attendees.as_slice());
    let ghost with_att = md@;
    put_optional(&mut md, &facts.context, "- **Context**: ", "\n");
    let ghost with_ctx = md@;
    put_optional(&mut md, &facts.calendar_event, "- **Calendar**: ", "\n");
    let ghost with_cal = md@;
    put(&mut md, "\n");
    assert(md@ =~= with_cal + "\n"@);
    assert(md@ =~= facts_text(*facts));
    md
}

fn attendees_line(attendees: &Vec<String>) -> (r: Vec<char>)
    ensures
        r@ == (if attendees@.len() > 0 {
            "- **Attendees**: "@ + text::join(text::string_views(attendees@), ", "@) + "\n"@
        } else {
            seq![]
        }),
{
    let mut md: Vec<char> = Vec::new();
    if attendees.len() == 0 {
        return md;
    }
    put(&mut md, "- **Attendees**: ");
    let mut names: Vec<Vec<char>> = Vec::new();
    let mut k: usize = 0;
    while k < attendees.len()
        invariant
            k <= attendees@.len(),
            text::views(names@) == text::string_views(attendees@).take(k as int),
        decreases attendees@.len() - k,
    {
        let ghost nb = text::views(names@);
        names.push(text::chars_of(attendees[k].as_str()));
        assert(text::views(names@) =~= nb.push(attendees@[k as int]@));
        assert(text::string_views(attendees@).take(k + 1) =~= text::string_views(attendees@).take(k as int).push(
            attendees@[k as int]@,
        ));
        k = k + 1;
    }
    assert(text::string_views(attendees@).take(k as int) =~= text::string_views(attendees@));
    let sep = text::chars_of(", ");
    let joined = text::join_chars(&names, sep.as_slice());
    text::append_chars(&mut md, joined.as_slice());
    put(&mut md, "\n");
    md
}

fn content_block(meeting_path: &str, body: &str) -> (r: Vec<char>)
    ensures
        r@ == content_text(meeting_path@, body@),
{
    let mut md: Vec<char> = Vec::new();
    put(&mut md, "## Full Content\n\n");
    put(&mut md, "The complete meeting transcript follows. It is also available at:\n");
    put(&mut md, "`");
    put(&mut md, meeting_path);
    put(&mut md, "`\n\n");
    let ghost head = md@;
    let b = text::chars_of(body);
    if b.len() > BODY_LIMIT {
        let kept = text::copy_range(b.as_slice(), 0, BODY_LIMIT);
        assert(kept@ =~= body@.take(BODY_LIMIT as int));
        text::append_chars(&mut md, kept.as_slice());
        put(&mut md, "\n\n...[transcript truncated — read the full file for the rest]\n");
        assert(md@ =~= head + kept_body(body@));
    } else {
        text::append_chars(&mut md, b.as_slice());
    }
    md
}

fn instructions_block(output_dir: &str) -> (r: Vec<char>)
    ensures
        r@ == instructions_text(output_dir@),
{
    let mut md: Vec<char> = Vec::new();
    put(&mut md, "\n\n## Instructions\n\n");
    put(&mut md, "- Answer questions about this meeting\n");
    put(&mut md, "- Help draft follow-up messages based on the discussion\n");
    put(&mut md, "- Extract key takeaways the user might have missed\n");
    put(&mut md, "- All meetings are at `");
    put(&mut md, output_dir);
    put(&mut md, "` if you need to cross-reference\n");
    put(&mut md, "- You can create files in this directory to save artifacts\n");
    md
}

/// The context of one meeting; see `meeting_context_text`.
pub fn meeting_context(facts: &MeetingFacts, meeting_path: &str, body: &str, output_dir: &str) -> (r: String)
    ensures
        r@ == meeting_context_text(*facts, meeting_path@, body@, output_dir@),
{
    let mut md: Vec<char> = Vec::new();
    put(&mut md, "# Meeting Context\n\n");
    put(&mut md, "You are helping the user analyze a specific meeting recording.\n\n");
    let f = facts_block(facts);
    text::append_chars(&mut md, f.as_slice());
    let decisions = decision_lines(&facts.decisions);
    put_section(
        &mut md,
        "## Decisions Made\n",
        &decisions,
        facts.decisions.len() > 0,
        Ghost(facts.decisions@.map_values(|d: Decision| decision_line(decision_view(d)))),
    );
    let open = open_intent_lines(&facts.intents);
    let any_open = has_open_intent(&facts.intents);
    put_section(
        &mut md,
        "## Open Action Items\n",
        &open,
        any_open,
        Ghost(
            open_intents(intents::intent_views(facts.intents@)).map_values(
                |i: (IntentKind, Seq<char>, Option<Seq<char>>, Seq<char>, Option<Seq<char>>)| meeting_intent_line(i),
            ),
        ),
    );
    let c = content_block(meeting_path, body);
    text::append_chars(&mut md, c.as_slice());
    let ins = instructions_block(output_dir);
    text::append_chars(&mut md, ins.as_slice());
    text::string_of(md.as_slice())
}

fn has_open_intent(is: &Vec<Intent>) -> (r: bool)
    ensures
        r == (open_intents(intents::intent_views(is@)).len() > 0),
{
    let ghost iv = intents::intent_views(is@);
    let ghost keep = |i: (IntentKind, Seq<char>, Option<Seq<char>>, Seq<char>, Option<Seq<char>>)| i.3 == "open"@;
    let mut i: usize = 0;
    reveal(Seq::filter);
    assert(iv.take(0).filter(keep) =~= Seq::empty());
    while i < is.len()
        invariant
            i <= is@.len(),
            iv == intents::intent_views(is@),
            iv.len() == is@.len(),
            keep == (|i: (IntentKind, Seq<char>, Option<Seq<char>>, Seq<char>, Option<Seq<char>>)| i.3 == "open"@),
            iv.take(i as int).filter(keep).len() == 0,
        decreases is@.len() - i,
    {
        assert(iv[i as int] == intents::intent_view(is@[i as int]));
        assert(iv.take(i + 1).drop_last() =~= iv.take(i as int));
        reveal(Seq::filter);
        let is_open = text::eq_lit(text::chars_of(is[i].status.as_str()).as_slice(), "open");
        assert(keep(iv[i as int]) == is_open);
        if is_open {
            assert(iv.take(i + 1).filter(keep) == iv.take(i as int).filter(keep).push(iv[i as int]));
            proof {
                assert(iv =~= iv.take(i + 1) + iv.skip(i + 1));
                Seq::filter_distributes_over_add(iv.take(i + 1), iv.skip(i + 1), keep);
            }
            return true;
        }
        assert(iv.take(i + 1).filter(keep) == iv.take(i as int).filter(keep));
        i = i + 1;
    }
    assert(iv.take(i as int) =~= iv);
    false
}

/// An intent found across meetings: the meeting's title and the intent.
#[derive(Debug)]
pub struct IntentEntry {
    pub title: String,
    pub kind: IntentKind,
    pub what: String,
    pub who: Option<String>,
    pub status: String,
    pub by_date: Option<String>,
}

/// A recent meeting as the assistant context lists it.
pub open spec fn recent_line(r: SearchResult) -> Seq<char> {
    "- **"@ + r.title@ + "** ("@ + r.date@ + ") ["@ + r.content_type@ + "] — `"@ + r.path@ + "`\n"@
}

/// An open intent as the assistant context lists it.
pub open spec fn entry_line(e: IntentEntry) -> Seq<char> {
    "- ["@ + e.title@ + "] **"@ + kind_label(e.kind) + "**: "@ + e.what@ + intent_tail(
        text::opt_string(e.who),
        text::opt_string(e.by_date),
    )
}

/// The first `n` members of `s` (all of them when fewer).
pub open spec fn first_n<A>(s: Seq<A>, n: nat) -> Seq<A> {
    if s.len() <= n {
        s
    } else {
        s.take(n as int)
    }
}

/// The open entries, in order.
pub open spec fn open_entries(v: Seq<IntentEntry>) -> Seq<IntentEntry> {
    v.filter(|e: IntentEntry| e.status@ == "open"@)
}

/// The opening of the assistant context, naming the meeting directory.
pub open spec fn assistant_head(output_dir: Seq<char>) -> Seq<char> {
    "# Minutes Assistant\n\n"@
        + "You are a meeting intelligence assistant with access to the user's complete meeting history.\n\n"@
        + "## Meeting Directory\n`"@ + output_dir + "`\n\n"@
}

/// The CLI commands the assistant may use.
pub open spec fn cli_text(output_dir: Seq<char>) -> Seq<char> {
    "## Minutes CLI Commands\n"@ + "The `minutes` CLI is available on PATH:\n"@
        + "- `minutes search \"topic\"` — full-text search across all meetings\n"@
        + "- `minutes actions` — show all open action items\n"@
        + "- `minutes actions --assignee \"name\"` — filter by person\n"@
        + "- `minutes consistency` — flag conflicting decisions and stale commitments\n"@
        + "- `minutes person \"name\"` — build a profile across meetings\n"@
        + "- `minutes list` — list recent meetings and memos\n"@
        + "- `minutes record` / `minutes stop` — start/stop recording\n"@
        + "- `minutes note \"text\"` — add a timestamped note to current recording\n"@
        + "- `minutes process <file>` — process an audio file\n"@
        + "- `minutes qmd status` — check QMD collection status\n"@
        + "- `minutes qmd register` — register meetings as a QMD collection\n"@ + "- `grep -ril \"keyword\" "@
        + output_dir + "/` — raw file search\n"@
}

/// The integrations and instructions closing the assistant context.
pub open spec fn assistant_tail() -> Seq<char> {
    "\n## Integrations\n\n"@
        + "**QMD** — Minutes can register its output directory as a QMD collection for semantic search.\n"@
        + "Run `minutes qmd status` to check, `minutes qmd register` to set up.\n"@
        + "Once registered, `qmd search \"topic\" -c minutes` searches meetings semantically.\n\n"@
        + "**PARA / Obsidian** — If the user has a PARA knowledge graph at ~/Documents/life/,\n"@
        + "older meetings may live in areas/meetings/. Minutes outputs to ~/meetings/ by default.\n"@
        + "These can be unified by symlinking or configuring output_dir in config.toml.\n\n"@
        + "**Daily Notes** — Minutes can append session summaries to daily notes.\n"@
        + "Configure in ~/.config/minutes/config.toml under [daily_notes].\n"@ + "\n## Active Meeting Focus\n\n"@
        + "If `CURRENT_MEETING.md` exists in this directory, treat it as the current meeting focus and read it before answering.\n"@
        + "If that file does not exist, operate in general assistant mode across all meetings.\n"@
        + "\n## Instructions\n\n"@ + "- Synthesize information across multiple meetings\n"@
        + "- Track decisions, action items, and commitments\n"@ + "- Help prepare for upcoming meetings\n"@
        + "- Create follow-up documents, reports, and summaries\n"@
        + "- Always cite which meeting your information comes from\n"@
        + "- You can create files in this directory to save artifacts\n"@
}

/// The general assistant context: the meeting directory, up to ten recent
/// meetings, up to fifteen open intents, the CLI, the integrations, the
/// meeting in focus and the instructions.
pub open spec fn assistant_context_text(output_dir: Seq<char>, recent: Seq<SearchResult>, entries: Seq<IntentEntry>) -> Seq<
    char,
> {
    assistant_head(output_dir) + section(
        "## Recent Meetings\n"@,
        first_n(recent, RECENT_LIMIT as nat).map_values(|r: SearchResult| recent_line(r)),
    ) + section(
        "## Open Action Items & Commitments\n"@,
        first_n(open_entries(entries), OPEN_INTENT_LIMIT as nat).map_values(|e: IntentEntry| entry_line(e)),
    ) + cli_text(output_dir) + assistant_tail()
}

fn recent_lines(recent: &Vec<SearchResult>) -> (r: (Vec<char>, bool))
    ensures
        r.0@ == concat(first_n(recent@, RECENT_LIMIT as nat).map_values(|x: SearchResult| recent_line(x))),
        r.1 == (first_n(recent@, RECENT_LIMIT as nat).len() > 0),
{
    let ghost firsts = first_n(recent@, RECENT_LIMIT as nat);
    let ghost lines = firsts.map_values(|x: SearchResult| recent_line(x));
    let n = if recent.len() <= RECENT_LIMIT {
        recent.len()
    } else {
        RECENT_LIMIT
    };
    assert(firsts.len() == n);
    let mut out: Vec<char> = Vec::new();
    let mut i: usize = 0;
    assert(lines.take(0) =~= Seq::<Seq<char>>::empty());
    assert(concat(lines.take(0)) =~= Seq::<char>::empty());
    while i < n
        invariant
            i <= n,
            n == firsts.len(),
            n <= recent@.len(),
            firsts == first_n(recent@, RECENT_LIMIT as nat),
            lines == firsts.map_values(|x: SearchResult| recent_line(x)),
            out@ == concat(lines.take(i as int)),
        decreases n - i,
    {
        let ghost before = out@;
        let x = &recent[i];
        assert(firsts[i as int] == recent@[i as int]);
        put(&mut out, "- **");
        put(&mut out, x.title.as_str());
        put(&mut out, "** (");
        put(&mut out, x.date.as_str());
        put(&mut out, ") [");
        put(&mut out, x.content_type.as_str());
        put(&mut out, "] — `");
        put(&mut out, x.path.as_str());
        put(&mut out, "`\n");
        proof {
            assert(out@ =~= before + lines[i as int]);
            assert(lines.take(i + 1) =~= lines.take(i as int).push(lines[i as int]));
            lemma_concat_push(lines.take(i as int), lines[i as int]);
        }
        i = i + 1;
    }
    assert(lines.take(i as int) =~= lines);
    (out, n > 0)
}

fn entry_lines(entries: &Vec<IntentEntry>) -> (r: (Vec<char>, bool))
    ensures
        r.0@ == concat(first_n(open_entries(entries@), OPEN_INTENT_LIMIT as nat).map_values(|e: IntentEntry| entry_line(e))),
        r.1 == (first_n(open_entries(entries@), OPEN_INTENT_LIMIT as nat).len() > 0),
{
    let ghost keep = |e: IntentEntry| e.status@ == "open"@;
    let ghost line = |e: IntentEntry| entry_line(e);
    let ghost ev = entries@;
    let mut out: Vec<char> = Vec::new();
    let mut count: usize = 0;
    let mut i: usize = 0;
    reveal(Seq::filter);
    assert(ev.take(0).filter(keep) =~= Seq::<IntentEntry>::empty());
    assert(concat(Seq::<IntentEntry>::empty().map_values(line)) =~= Seq::<char>::empty());
    while i < entries.len() && count < OPEN_INTENT_LIMIT
        invariant
            i <= entries@.len(),
            ev == entries@,
            keep == (|e: IntentEntry| e.status@ == "open"@),
            line == (|e: IntentEntry| entry_line(e)),
            count == ev.take(i as int).filter(keep).len(),
            count <= OPEN_INTENT_LIMIT,
            out@ == concat(ev.take(i as int).filter(keep).map_values(line)),
        decreases entries@.len() - i,
    {
        let e = &entries[i];
        assert(ev.take(i + 1).drop_last() =~= ev.take(i as int));
        reveal(Seq::filter);
        let is_open = text::eq_lit(text::chars_of(e.status.as_str()).as_slice(), "open");
        assert(keep(ev[i as int]) == is_open);
        if is_open {
            let ghost before = out@;
            put(&mut out, "- [");
            put(&mut out, e.title.as_str());
            put(&mut out, "] **");
            put(&mut out, intent_label(e.kind));
            put(&mut out, "**: ");
            put(&mut out, e.what.as_str());
            intent_tail_chars(&mut out, &e.who, &e.by_date);
            proof {
                assert(out@ =~= before + line(ev[i as int]));
                assert(ev.take(i + 1).filter(keep) == ev.take(i as int).filter(keep).push(ev[i as int]));
                assert(ev.take(i + 1).filter(keep).map_values(line) =~= ev.take(i as int).filter(keep).map_values(
                    line,
                ).push(line(ev[i as int])));
                lemma_concat_push(ev.take(i as int).filter(keep).map_values(line), line(ev[i as int]));
            }
            count = count + 1;
        } else {
            assert(ev.take(i + 1).filter(keep) == ev.take(i as int).filter(keep));
        }
        i = i + 1;
    }
    proof {
        let f = ev.take(i as int).filter(keep);
        let all = ev.filter(keep);
        assert(ev =~= ev.take(i as int) + ev.skip(i as int));
        Seq::filter_distributes_over_add(ev.take(i as int), ev.skip(i as int), keep);
        assert(all =~= f + ev.skip(i as int).filter(keep));
        if i < ev.len() {
            assert(count == OPEN_INTENT_LIMIT);
            assert(first_n(all, OPEN_INTENT_LIMIT as nat) =~= f);
        } else {
            assert(ev.skip(i as int) =~= Seq::<IntentEntry>::empty());
            assert(ev.skip(i as int).filter(keep) =~= Seq::<IntentEntry>::empty());
            assert(all =~= f);
        }
        assert(first_n(open_entries(entries@), OPEN_INTENT_LIMIT as nat) == f);
    }
    (out, count > 0)
}

fn cli_block(output_dir: &str) -> (r: Vec<char>)
    ensures
        r@ == cli_text(output_dir@),
{
    let mut md: Vec<char> = Vec::new();
    put(&mut md, "## Minutes CLI Commands\n");
    put(&mut md, "The `minutes` CLI is available on PATH:\n");
    put(&mut md, "- `minutes search \"topic\"` — full-text search across all meetings\n");
    put(&mut md, "- `minutes actions` — show all open action items\n");
    put(&mut md, "- `minutes actions --assignee \"name\"` — filter by person\n");
    put(&mut md, "- `minutes consistency` — flag conflicting decisions and stale commitments\n");
    put(&mut md, "- `minutes person \"name\"` — build a profile across meetings\n");
    put(&mut md, "- `minutes list` — list recent meetings and memos\n");
    put(&mut md, "- `minutes record` / `minutes stop` — start/stop recording\n");
    put(&mut md, "- `minutes note \"text\"` — add a timestamped note to current recording\n");
    put(&mut md, "- `minutes process <file>` — process an audio file\n");
    put(&mut md, "- `minutes qmd status` — check QMD collection status\n");
    put(&mut md, "- `minutes qmd register` — register meetings as a QMD collection\n");
    put(&mut md, "- `grep -ril \"keyword\" ");
    put(&mut md, output_dir);
    put(&mut md, "/` — raw file search\n");
    md
}

fn tail_block() -> (r: Vec<char>)
    ensures
        r@ == assistant_tail(),
{
    let mut md: Vec<char> = Vec::new();
    put(&mut md, "\n## Integrations\n\n");
    put(&mut md, "**QMD** — Minutes can register its output directory as a QMD collection for semantic search.\n");
    put(&mut md, "Run `minutes qmd status` to check, `minutes qmd register` to set up.\n");
    put(&mut md, "Once registered, `qmd search \"topic\" -c minutes` searches meetings semantically.\n\n");
    put(&mut md, "**PARA / Obsidian** — If the user has a PARA knowledge graph at ~/Documents/life/,\n");
    put(&mut md, "older meetings may live in areas/meetings/. Minutes outputs to ~/meetings/ by default.\n");
    put(&mut md, "These can be unified by symlinking or configuring output_dir in config.toml.\n\n");
    put(&mut md, "**Daily Notes** — Minutes can append session summaries to daily notes.\n");
    put(&mut md, "Configure in ~/.config/minutes/config.toml under [daily_notes].\n");
    put(&mut md, "\n## Active Meeting Focus\n\n");
    put(
        &mut md,
        "If `CURRENT_MEETING.md` exists in this directory, treat it as the current meeting focus and read it before answering.\n",
    );
    put(&mut md, "If that file does not exist, operate in general assistant mode across all meetings.\n");
    put(&mut md, "\n## Instructions\n\n");
    put(&mut md, "- Synthesize information across multiple meetings\n");
    put(&mut md, "- Track decisions, action items, and commitments\n");
    put(&mut md, "- Help prepare for upcoming meetings\n");
    put(&mut md, "- Create follow-up documents, reports, and summaries\n");
    put(&mut md, "- Always cite which meeting your information comes from\n");
    put(&mut md, "- You can create files in this directory to save artifacts\n");
    md
}

/// The general assistant context; see `assistant_context_text`. `recent`
/// are the meetings newest first and `entries` the intents found.
pub fn assistant_context(output_dir: &str, recent: &Vec<SearchResult>, entries: &Vec<IntentEntry>) -> (r: String)
    ensures
        r@ == assistant_context_text(output_dir@, recent@, entries@),
{
    let mut md: Vec<char> = Vec::new();
    put(&mut md, "# Minutes Assistant\n\n");
    put(&mut md, "You are a meeting intelligence assistant with access to the user's complete meeting history.\n\n");
    put(&mut md, "## Meeting Directory\n`");
    put(&mut md, output_dir);
    put(&mut md, "`\n\n");
    let (recent_text, any_recent) = recent_lines(recent);
    put_section(
        &mut md,
        "## Recent Meetings\n",
        &recent_text,
        any_recent,
        Ghost(first_n(recent@, RECENT_LIMIT as nat).map_values(|x: SearchResult| recent_line(x))),
    );
    let (entry_text, any_entry) = entry_lines(entries);
    put_section(
        &mut md,
        "## Open Action Items & Commitments\n",
        &entry_text,
        any_entry,
        Ghost(first_n(open_entries(entries@), OPEN_INTENT_LIMIT as nat).map_values(|e: IntentEntry| entry_line(e))),
    );
    let cli = cli_block(output_dir);
    text::append_chars(&mut md, cli.as_slice());
    let tail = tail_block();
    text::append_chars(&mut md, tail.as_slice());
    text::string_of(md.as_slice())
}

} // verus!

//! Structured data extracted from a meeting summary: action items with
//! assignee and due date, decisions with an inferred topic, and the typed
//! intents (action items, decisions, open questions, commitments).

use crate::text::{
    self, chars_of, copy_range, eq_lit, find_chars, is_alphanumeric, join_chars, lit_chars,
    split_whitespace, string_of, to_lowercase_chars, trim_chars,
};
use vstd::prelude::*;

verus! {

/// An action item of a meeting.
#[derive(Debug, PartialEq, Eq)]
pub struct ActionItem {
    pub assignee: String,
    pub task: String,
    pub due: Option<String>,
    pub status: String,
}

/// A decision of a meeting.
#[derive(Debug, PartialEq, Eq)]
pub struct Decision {
    pub text: String,
    pub topic: Option<String>,
}

/// The kind of an intent.
#[derive(Debug, Clone, Copy, PartialEq, Eq)]
pub enum IntentKind {
    ActionItem,
    Decision,
    OpenQuestion,
    Commitment,
}

/// A typed intent of a meeting.
#[derive(Debug, PartialEq, Eq)]
pub struct Intent {
    pub kind: IntentKind,
    pub what: String,
    pub who: Option<String>,
    pub status: String,
    pub by_date: Option<String>,
}

/// The summary a summarizer produced for a meeting.
#[derive(Debug, PartialEq, Eq)]
pub struct Summary {
    pub text: String,
    pub key_points: Vec<String>,
    pub decisions: Vec<String>,
    pub action_items: Vec<String>,
    pub open_questions: Vec<String>,
    pub commitments: Vec<String>,
    pub participants: Vec<String>,
}

/// Characters that continue a due date ("March 21", "next-week").
pub open spec fn is_due_char(c: char) -> bool {
    text::char_alphanumeric(c) || c == ' ' || c == '-'
}

/// The longest prefix of `s` made of due-date characters.
pub open spec fn due_prefix(s: Seq<char>) -> Seq<char>
    decreases s.len(),
{
    if s.len() > 0 && is_due_char(s[0]) {
        seq![s[0]] + due_prefix(s.drop_first())
    } else {
        Seq::empty()
    }
}

/// The due date that follows the first occurrence of `marker` (found in
/// the lowercased text, read from the original text), if non-empty.
pub open spec fn due_after(t: Seq<char>, marker: Seq<char>) -> Option<Seq<char>> {
    match text::find(text::lowercase(t), marker) {
        Some(pos) => {
            let after = if pos + 4 <= t.len() {
                t.skip(pos + 4int)
            } else {
                Seq::empty()
            };
            let due = text::trim(due_prefix(after));
            if due.len() > 0 {
                Some(due)
            } else {
                None
            }
        },
        None => None,
    }
}

/// The due date of an action item: after " by ", else after "due ".
pub open spec fn due_date(t: Seq<char>) -> Option<Seq<char>> {
    match due_after(t, " by "@) {
        Some(d) => Some(d),
        None => due_after(t, "due "@),
    }
}

/// Executable `due_prefix`.
fn due_prefix_exec(s: &[char]) -> (r: Vec<char>)
    ensures
        r@ == due_prefix(s@),
{
    let mut i: usize = 0;
    while i < s.len() && (is_alphanumeric(s[i]) || s[i] == ' ' || s[i] == '-')
        invariant
            i <= s@.len(),
            forall|k: int| 0 <= k < i ==> is_due_char(#[trigger] s@[k]),
        decreases s@.len() - i,
    {
        i = i + 1;
    }
    let r = copy_range(s, 0, i);
    proof {
        lemma_due_prefix(s@, i as int);
    }
    r
}

proof fn lemma_due_prefix(s: Seq<char>, i: int)
    requires
        0 <= i <= s.len(),
        forall|k: int| 0 <= k < i ==> is_due_char(#[trigger] s[k]),
        i == s.len() || !is_due_char(s[i]),
    ensures
        due_prefix(s) == s.subrange(0, i),
    decreases i,
{
    if i > 0 {
        assert(is_due_char(s[0]));
        lemma_due_prefix(s.drop_first(), i - 1);
        assert(seq![s[0]] + s.drop_first().subrange(0, i - 1) =~= s.subrange(0, i));
    } else {
        assert(s.subrange(0, 0) =~= Seq::<char>::empty());
    }
}

/// Executable `due_after`.
fn due_after_exec(t: &[char], lower: &[char], marker: &str) -> (r: Option<Vec<char>>)
    requires
        lower@ == text::lowercase(t@),
    ensures
        text::opt_seq(r) == due_after(t@, marker@),
{
    let m = lit_chars(marker);
    match find_chars(lower, m.as_slice(), 0) {
        Some(pos) => {
            let after = if pos <= t.len() && 4 <= t.len() - pos {
                let a = copy_range(t, pos + 4, t.len());
                assert(a@ =~= t@.skip(pos + 4));
                a
            } else {
                let a: Vec<char> = Vec::new();
                assert(a@ =~= Seq::<char>::empty());
                a
            };
            let due = trim_chars(due_prefix_exec(after.as_slice()).as_slice());
            if due.len() > 0 {
                Some(due)
            } else {
                None
            }
        },
        None => None,
    }
}

/// `due_date(t)` on characters.
fn due_date_chars(t: &[char]) -> (r: Option<Vec<char>>)
    ensures
        text::opt_seq(r) == due_date(t@),
{
    let lower = to_lowercase_chars(t);
    match due_after_exec(t, lower.as_slice(), " by ") {
        Some(d) => Some(d),
        None => due_after_exec(t, lower.as_slice(), "due "),
    }
}

/// The due date of a task: the words after " by " ("by Friday") or after
/// "due " ("(due March 21)").
pub fn extract_due_date(text: &str) -> (r: Option<String>)
    ensures
        text::opt_string(r) == due_date(text@),
{
    let cs = chars_of(text);
    match due_date_chars(cs.as_slice()) {
        Some(d) => Some(string_of(d.as_slice())),
        None => None,
    }
}

/// Words ignored when inferring a decision's topic.
pub open spec fn is_topic_stopword(w: Seq<char>) -> bool {
    ||| w == "the"@
    ||| w == "a"@
    ||| w == "an"@
    ||| w == "to"@
    ||| w == "for"@
    ||| w == "of"@
    ||| w == "in"@
    ||| w == "on"@
    ||| w == "at"@
    ||| w == "is"@
    ||| w == "was"@
    ||| w == "will"@
    ||| w == "should"@
    ||| w == "we"@
    ||| w == "they"@
    ||| w == "it"@
}

/// The words of `ws` that are not topic stopwords.
pub open spec fn topic_candidates(ws: Seq<Seq<char>>) -> Seq<Seq<char>>
    decreases ws.len(),
{
    if ws.len() == 0 {
        ws
    } else if is_topic_stopword(text::lowercase(ws.last())) {
        topic_candidates(ws.drop_last())
    } else {
        topic_candidates(ws.drop_last()).push(ws.last())
    }
}

/// At most the first four members of `ws`.
pub open spec fn first_four(ws: Seq<Seq<char>>) -> Seq<Seq<char>> {
    if ws.len() > 4 {
        ws.take(4)
    } else {
        ws
    }
}

/// The topic of a decision: its first four meaningful words, lowercased.
pub open spec fn topic_of(t: Seq<char>) -> Option<Seq<char>> {
    let ws = first_four(topic_candidates(text::words(t)));
    if ws.len() == 0 {
        None
    } else {
        Some(text::lowercase(text::join(ws, seq![' '])))
    }
}

/// Executable `is_topic_stopword`.
fn is_topic_stopword_exec(w: &[char]) -> (r: bool)
    ensures
        r == is_topic_stopword(w@),
{
    eq_lit(w, "the") || eq_lit(w, "a") || eq_lit(w, "an") || eq_lit(w, "to") || eq_lit(w, "for")
        || eq_lit(w, "of") || eq_lit(w, "in") || eq_lit(w, "on") || eq_lit(w, "at") || eq_lit(
        w,
        "is",
    ) || eq_lit(w, "was") || eq_lit(w, "will") || eq_lit(w, "should") || eq_lit(w, "we")
        || eq_lit(w, "they") || eq_lit(w, "it")
}

/// `topic_of(t)` on characters.
fn topic_chars(t: &[char]) -> (r: Option<Vec<char>>)
    ensures
        text::opt_seq(r) == topic_of(t@),
{
    let ws = split_whitespace(t);
    let ghost wv = text::views(ws@);
    let mut kept: Vec<Vec<char>> = Vec::new();
    let mut i: usize = 0;
    assert(wv.take(0) =~= Seq::<Seq<char>>::empty());
    while i < ws.len()
        invariant
            i <= ws@.len(),
            wv == text::views(ws@),
            text::views(kept@) == topic_candidates(wv.take(i as int)),
        decreases ws@.len() - i,
    {
        assert(wv.take(i + 1).drop_last() =~= wv.take(i as int));
        assert(wv.take(i + 1).last() == ws@[i as int]@);
        let lower = to_lowercase_chars(ws[i].as_slice());
        if !is_topic_stopword_exec(lower.as_slice()) {
            let ghost before = text::views(kept@);
            kept.push(copy_range(ws[i].as_slice(), 0, ws[i].len()));
            assert(ws@[i as int]@.subrange(0, ws@[i as int]@.len() as int) =~= ws@[i as int]@);
            assert(text::views(kept@) =~= before.push(ws@[i as int]@));
        }
        i = i + 1;
    }
    assert(wv.take(ws@.len() as int) =~= wv);
    if kept.len() > 4 {
        let ghost kv = text::views(kept@);
        kept.truncate(4);
        assert(text::views(kept@) =~= kv.take(4));
    }
    if kept.len() == 0 {
        return None;
    }
    let sp = vec![' '];
    assert(sp@ =~= seq![' ']);
    let joined = join_chars(&kept, sp.as_slice());
    Some(to_lowercase_chars(joined.as_slice()))
}

/// The topic of a decision: its first four words that are not stopwords,
/// lowercased; `None` when there are none.
pub fn infer_topic(text: &str) -> (r: Option<String>)
    ensures
        text::opt_string(r) == topic_of(text@),
{
    let cs = chars_of(text);
    match topic_chars(cs.as_slice()) {
        Some(t) => Some(string_of(t.as_slice())),
        None => None,
    }
}

/// Whether `c` is `')'`.
pub open spec fn close_paren() -> spec_fn(char) -> bool {
    |c: char| c == ')'
}

/// `s` without trailing `')'` characters, then trimmed.
pub open spec fn without_close_parens(s: Seq<char>) -> Seq<char> {
    text::trim(text::trim_end_by(s, close_paren()))
}

/// Executable `without_close_parens`.
fn without_close_parens_exec(s: &[char]) -> (r: Vec<char>)
    ensures
        r@ == without_close_parens(s@),
{
    let mut j: usize = s.len();
    assert(s@.subrange(0, s@.len() as int) =~= s@);
    while j > 0 && s[j - 1] == ')'
        invariant
            j <= s@.len(),
            text::trim_end_by(s@, close_paren()) == text::trim_end_by(
                s@.subrange(0, j as int),
                close_paren(),
            ),
        decreases j,
    {
        assert(s@.subrange(0, j as int).drop_last() =~= s@.subrange(0, j - 1));
        assert(close_paren()(s@[j - 1]));
        j = j - 1;
    }
    let cut = copy_range(s, 0, j);
    trim_chars(cut.as_slice())
}

/// Assignee and task of an action item line ("@name: task"); lines without
/// an "@name:" prefix are unassigned.
pub open spec fn assignee_and_task(item: Seq<char>) -> (Seq<char>, Seq<char>) {
    if item.len() > 0 && item[0] == '@' {
        let rest = item.drop_first();
        match text::find(rest, seq![':']) {
            Some(c) => (text::trim(rest.take(c as int)), text::trim(rest.skip(c as int + 1))),
            None => ("unassigned"@, item),
        }
    } else {
        ("unassigned"@, item)
    }
}

/// The action item an item line gives: (assignee, task, due, status).
pub open spec fn action_of(item: Seq<char>) -> (Seq<char>, Seq<char>, Option<Seq<char>>, Seq<char>) {
    let (assignee, task) = assignee_and_task(item);
    (assignee, without_close_parens(task), due_date(task), "open"@)
}

/// The view of an action item.
pub open spec fn action_view(a: ActionItem) -> (Seq<char>, Seq<char>, Option<Seq<char>>, Seq<char>) {
    (a.assignee@, a.task@, text::opt_string(a.due), a.status@)
}

/// Executable `assignee_and_task`.
fn assignee_and_task_exec(item: &[char]) -> (r: (Vec<char>, Vec<char>))
    ensures
        (r.0@, r.1@) == assignee_and_task(item@),
{
    if item.len() > 0 && item[0] == '@' {
        let rest = copy_range(item, 1, item.len());
        assert(rest@ =~= item@.drop_first());
        let colon = vec![':'];
        assert(colon@ =~= seq![':']);
        match find_chars(rest.as_slice(), colon.as_slice(), 0) {
            Some(c) => {
                proof {
                    text::lemma_find_from_bounds(rest@, seq![':'], 0);
                }
                let who = copy_range(rest.as_slice(), 0, c);
                let what = copy_range(rest.as_slice(), c + 1, rest.len());
                assert(who@ =~= rest@.take(c as int));
                assert(what@ =~= rest@.skip(c as int + 1));
                (trim_chars(who.as_slice()), trim_chars(what.as_slice()))
            },
            None => (lit_chars("unassigned"), copy_range(item, 0, item.len())),
        }
    } else {
        (lit_chars("unassigned"), copy_range(item, 0, item.len()))
    }
}

/// The action item of one summary line.
fn action_item_of(item: &str) -> (r: ActionItem)
    ensures
        action_view(r) == action_of(item@),
{
    let cs = chars_of(item);
    assert(cs@.subrange(0, cs@.len() as int) =~= cs@);
    let (assignee, task) = assignee_and_task_exec(cs.as_slice());
    let due = due_date_chars(task.as_slice());
    let clean = without_close_parens_exec(task.as_slice());
    ActionItem {
        assignee: string_of(assignee.as_slice()),
        task: string_of(clean.as_slice()),
        due: match due {
            Some(d) => Some(string_of(d.as_slice())),
            None => None,
        },
        status: String::from_str("open"),
    }
}

/// Structured action items from a summary's "- @name: task by Friday"
/// lines: assignee (or "unassigned"), task without trailing parentheses,
/// due date, status "open".
pub fn extract_action_items(summary: &Summary) -> (r: Vec<ActionItem>)
    ensures
        r@.len() == summary.action_items@.len(),
        forall|i: int|
            0 <= i < r@.len() ==> action_view(#[trigger] r@[i]) == action_of(
                summary.action_items@[i]@,
            ),
{
    let mut r: Vec<ActionItem> = Vec::new();
    let mut i: usize = 0;
    while i < summary.action_items.len()
        invariant
            i <= summary.action_items@.len(),
            r@.len() == i,
            forall|k: int|
                0 <= k < i ==> action_view(#[trigger] r@[k]) == action_of(
                    summary.action_items@[k]@,
                ),
        decreases summary.action_items@.len() - i,
    {
        r.push(action_item_of(summary.action_items[i].as_str()));
        i = i + 1;
    }
    r
}

/// Structured decisions from a summary: the text and its inferred topic.
pub fn extract_decisions(summary: &Summary) -> (r: Vec<Decision>)
    ensures
        r@.len() == summary.decisions@.len(),
        forall|i: int|
            0 <= i < r@.len() ==> (#[trigger] r@[i]).text@ == summary.decisions@[i]@ && text::opt_string(
                r@[i].topic,
            ) == topic_of(summary.decisions@[i]@),
{
    let mut r: Vec<Decision> = Vec::new();
    let mut i: usize = 0;
    while i < summary.decisions.len()
        invariant
            i <= summary.decisions@.len(),
            r@.len() == i,
            forall|k: int|
                0 <= k < i ==> (#[trigger] r@[k]).text@ == summary.decisions@[k]@ && text::opt_string(
                    r@[k].topic,
                ) == topic_of(summary.decisions@[k]@),
        decreases summary.decisions@.len() - i,
    {
        let text = summary.decisions[i].clone();
        let topic = infer_topic(text.as_str());
        r.push(Decision { text, topic });
        i = i + 1;
    }
    r
}

/// Actor and text of an "@name: text" line; lines without the prefix have
/// no actor and are trimmed.
pub open spec fn actor_and_text(t: Seq<char>) -> (Option<Seq<char>>, Seq<char>) {
    if t.len() > 0 && t[0] == '@' && text::find(t.drop_first(), seq![':']) is Some {
        let rest = t.drop_first();
        let c = text::find(rest, seq![':'])->0;
        let who = text::trim(rest.take(c as int));
        (
            if who.len() == 0 {
                None
            } else {
                Some(who)
            },
            text::trim(rest.skip(c as int + 1)),
        )
    } else {
        (None, text::trim(t))
    }
}

/// Executable `actor_and_text`.
fn actor_and_text_exec(t: &[char]) -> (r: (Option<Vec<char>>, Vec<char>))
    ensures
        (text::opt_seq(r.0), r.1@) == actor_and_text(t@),
{
    if t.len() > 0 && t[0] == '@' {
        let rest = copy_range(t, 1, t.len());
        assert(rest@ =~= t@.drop_first());
        let colon = vec![':'];
        assert(colon@ =~= seq![':']);
        match find_chars(rest.as_slice(), colon.as_slice(), 0) {
            Some(c) => {
                proof {
                    text::lemma_find_from_bounds(rest@, seq![':'], 0);
                }
                let who = trim_chars(copy_range(rest.as_slice(), 0, c).as_slice());
                let what = trim_chars(copy_range(rest.as_slice(), c + 1, rest.len()).as_slice());
                assert(rest@.subrange(0, c as int) =~= rest@.take(c as int));
                assert(rest@.subrange(c + 1, rest@.len() as int) =~= rest@.skip(c as int + 1));
                return (
                    if who.len() == 0 {
                        None
                    } else {
                        Some(who)
                    },
                    what,
                );
            },
            None => {},
        }
    }
    (None, trim_chars(t))
}

/// Splits an "@name: text" line into its actor and text.
pub fn parse_actor_prefix(text: &str) -> (r: (Option<String>, String))
    ensures
        (text::opt_string(r.0), r.1@) == actor_and_text(text@),
{
    let cs = chars_of(text);
    let (who, what) = actor_and_text_exec(cs.as_slice());
    (
        match who {
            Some(w) => Some(string_of(w.as_slice())),
            None => None,
        },
        string_of(what.as_slice()),
    )
}

/// The view of an intent.
pub open spec fn intent_view(i: Intent) -> (IntentKind, Seq<char>, Option<Seq<char>>, Seq<char>, Option<Seq<char>>) {
    (i.kind, i.what@, text::opt_string(i.who), i.status@, text::opt_string(i.by_date))
}

/// The intent of an action item line.
pub open spec fn action_intent(item: Seq<char>) -> (IntentKind, Seq<char>, Option<Seq<char>>, Seq<char>, Option<Seq<char>>) {
    let a = action_of(item);
    (
        IntentKind::ActionItem,
        a.1,
        if a.0 == "unassigned"@ {
            None
        } else {
            Some(a.0)
        },
        a.3,
        a.2,
    )
}

/// The intent of a decision line.
pub open spec fn decision_intent(d: Seq<char>) -> (IntentKind, Seq<char>, Option<Seq<char>>, Seq<char>, Option<Seq<char>>) {
    (IntentKind::Decision, d, None, "decided"@, None)
}

/// The intent of an open question line.
pub open spec fn question_intent(q: Seq<char>) -> (IntentKind, Seq<char>, Option<Seq<char>>, Seq<char>, Option<Seq<char>>) {
    let (who, what) = actor_and_text(q);
    (IntentKind::OpenQuestion, what, who, "open"@, None)
}

/// The intent of a commitment line.
pub open spec fn commitment_intent(c: Seq<char>) -> (IntentKind, Seq<char>, Option<Seq<char>>, Seq<char>, Option<Seq<char>>) {
    let (who, what) = actor_and_text(c);
    (IntentKind::Commitment, without_close_parens(what), who, "open"@, due_date(c))
}

/// All intents of a summary: action items, then decisions, then open
/// questions, then commitments.
pub open spec fn intents_of(s: Summary) -> Seq<(IntentKind, Seq<char>, Option<Seq<char>>, Seq<char>, Option<Seq<char>>)> {
    let a = text::string_views(s.action_items@);
    let d = text::string_views(s.decisions@);
    let q = text::string_views(s.open_questions@);
    let c = text::string_views(s.commitments@);
    Seq::new(a.len(), |i: int| action_intent(a[i])) + Seq::new(
        d.len(),
        |i: int| decision_intent(d[i]),
    ) + Seq::new(q.len(), |i: int| question_intent(q[i])) + Seq::new(
        c.len(),
        |i: int| commitment_intent(c[i]),
    )
}

/// The views of intents.
pub open spec fn intent_views(v: Seq<Intent>) -> Seq<(IntentKind, Seq<char>, Option<Seq<char>>, Seq<char>, Option<Seq<char>>)> {
    Seq::new(v.len(), |i: int| intent_view(v[i]))
}

/// Typed intents of a summary: action items (with assignee and due date),
/// decisions ("decided"), open questions and commitments (with actor).
pub fn extract_intents(summary: &Summary) -> (r: Vec<Intent>)
    ensures
        intent_views(r@) == intents_of(*summary),
{
    let ghost a = text::string_views(summary.action_items@);
    let ghost d = text::string_views(summary.decisions@);
    let ghost q = text::string_views(summary.open_questions@);
    let ghost c = text::string_views(summary.commitments@);
    let mut r: Vec<Intent> = Vec::new();
    let mut i: usize = 0;
    while i < summary.action_items.len()
        invariant
            i <= a.len(),
            a == text::string_views(summary.action_items@),
            intent_views(r@) =~= Seq::new(i as nat, |k: int| action_intent(a[k])),
        decreases a.len() - i,
    {
        let item = action_item_of(summary.action_items[i].as_str());
        let unassigned = eq_lit(chars_of(item.assignee.as_str()).as_slice(), "unassigned");
        let ghost before = intent_views(r@);
        r.push(
            Intent {
                kind: IntentKind::ActionItem,
                what: item.task,
                who: if unassigned {
                    None
                } else {
                    Some(item.assignee)
                },
                status: item.status,
                by_date: item.due,
            },
        );
        assert(intent_views(r@) =~= before.push(action_intent(a[i as int])));
        i = i + 1;
    }
    let ghost r1 = intent_views(r@);
    let decisions = extract_decisions(summary);
    let mut i: usize = 0;
    while i < decisions.len()
        invariant
            i <= decisions@.len(),
            decisions@.len() == d.len(),
            d == text::string_views(summary.decisions@),
            forall|k: int|
                0 <= k < decisions@.len() ==> (#[trigger] decisions@[k]).text@
                    == summary.decisions@[k]@,
            intent_views(r@) =~= r1 + Seq::new(i as nat, |k: int| decision_intent(d[k])),
        decreases decisions@.len() - i,
    {
        let ghost before = intent_views(r@);
        let text = decisions[i].text.clone();
        assert(text@ == d[i as int]);
        r.push(
            Intent {
                kind: IntentKind::Decision,
                what: text,
                who: None,
                status: String::from_str("decided"),
                by_date: None,
            },
        );
        assert(intent_views(r@) =~= before.push(decision_intent(d[i as int])));
        i = i + 1;
    }
    let ghost r2 = intent_views(r@);
    let mut i: usize = 0;
    while i < summary.open_questions.len()
        invariant
            i <= q.len(),
            q == text::string_views(summary.open_questions@),
            intent_views(r@) =~= r2 + Seq::new(i as nat, |k: int| question_intent(q[k])),
        decreases q.len() - i,
    {
        let ghost before = intent_views(r@);
        let (who, what) = parse_actor_prefix(summary.open_questions[i].as_str());
        r.push(
            Intent {
                kind: IntentKind::OpenQuestion,
                what,
                who,
                status: String::from_str("open"),
                by_date: None,
            },
        );
        assert(intent_views(r@) =~= before.push(question_intent(q[i as int])));
        i = i + 1;
    }
    let ghost r3 = intent_views(r@);
    let mut i: usize = 0;
    while i < summary.commitments.len()
        invariant
            i <= c.len(),
            c == text::string_views(summary.commitments@),
            intent_views(r@) =~= r3 + Seq::new(i as nat, |k: int| commitment_intent(c[k])),
        decreases c.len() - i,
    {
        let ghost before = intent_views(r@);
        let cs = chars_of(summary.commitments[i].as_str());
        let due = due_date_chars(cs.as_slice());
        let (who, what) = actor_and_text_exec(cs.as_slice());
        let clean = without_close_parens_exec(what.as_slice());
        r.push(
            Intent {
                kind: IntentKind::Commitment,
                what: string_of(clean.as_slice()),
                who: match who {
                    Some(w) => Some(string_of(w.as_slice())),
                    None => None,
                },
                status: String::from_str("open"),
                by_date: match due {
                    Some(d) => Some(string_of(d.as_slice())),
                    None => None,
                },
            },
        );
        assert(intent_views(r@) =~= before.push(commitment_intent(c[i as int])));
        i = i + 1;
    }
    r
}

/// A due date is read as the whole run of letters, digits, spaces and
/// hyphens that starts the text after its marker: what is read is a prefix
/// of that text made only of such characters, and it stops only at the
/// text's end or at a character of another kind (so `2026-03-21` is read
/// whole).
pub proof fn due_run_is_maximal(s: Seq<char>)
    ensures
        due_prefix(s).len() <= s.len(),
        due_prefix(s) == s.take(due_prefix(s).len() as int),
        forall|k: int|
            0 <= k < due_prefix(s).len() ==> text::char_alphanumeric(#[trigger] s[k]) || s[k] == ' ' || s[k]
                == '-',
        due_prefix(s).len() < s.len() ==> !(text::char_alphanumeric(s[due_prefix(s).len() as int])
            || s[due_prefix(s).len() as int] == ' ' || s[due_prefix(s).len() as int] == '-'),
    decreases s.len(),
{
    if s.len() > 0 && is_due_char(s[0]) {
        due_run_is_maximal(s.drop_first());
        let r = due_prefix(s.drop_first());
        assert(due_prefix(s) == seq![s[0]] + r);
        assert(s.take(due_prefix(s).len() as int) =~= seq![s[0]] + s.drop_first().take(r.len() as int));
        assert forall|k: int| 0 <= k < due_prefix(s).len() implies text::char_alphanumeric(#[trigger] s[k])
            || s[k] == ' ' || s[k] == '-' by {
            if k > 0 {
                assert(s[k] == s.drop_first()[k - 1]);
            }
        }
        if due_prefix(s).len() < s.len() {
            assert(s[due_prefix(s).len() as int] == s.drop_first()[r.len() as int]);
        }
    } else {
        assert(s.take(0) =~= Seq::<char>::empty());
    }
}

} // verus!

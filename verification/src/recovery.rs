//! Recovery of captures that did not make it through processing: the
//! items listed (an unfinished live recording, preserved captures, failed
//! watched files), newest first, and retrying one.

use crate::app_state::{OutputNotice, RecoveryItem};
use crate::capture::PipelineStage;
use crate::markdown::ContentType;
use crate::meetings;
use crate::numbers;
use crate::text;
use vstd::prelude::*;

verus! {

/// A recovery item as text: kind, title, path, detail and retry type.
pub type ItemView = (Seq<char>, Seq<char>, Seq<char>, Seq<char>, Seq<char>);

/// The view of a recovery item.
pub open spec fn item_view(r: RecoveryItem) -> ItemView {
    (r.kind@, r.title@, r.path@, r.detail@, r.retry_type@)
}

/// The item for an unfinished live recording at `path`.
pub fn stale_recording_item(path: &str) -> (r: RecoveryItem)
    ensures
        item_view(r) == (
            "stale-recording"@,
            "Unprocessed live recording"@,
            path@,
            "Minutes found an unfinished live capture that never made it through the pipeline."@,
            "meeting"@,
        ),
{
    RecoveryItem {
        kind: String::from_str("stale-recording"),
        title: String::from_str("Unprocessed live recording"),
        path: path.to_owned(),
        detail: String::from_str(
            "Minutes found an unfinished live capture that never made it through the pipeline.",
        ),
        retry_type: String::from_str("meeting"),
    }
}

/// The item for a capture preserved at `path`, titled after its file.
pub fn preserved_capture_item(path: &str) -> (r: RecoveryItem)
    ensures
        item_view(r) == (
            "preserved-capture"@,
            meetings::recovery_title_of(path@, "Preserved capture"@),
            path@,
            "A live recording was preserved because capture or processing failed."@,
            "meeting"@,
        ),
{
    RecoveryItem {
        kind: String::from_str("preserved-capture"),
        title: meetings::recovery_title(path, "Preserved capture"),
        path: path.to_owned(),
        detail: String::from_str("A live recording was preserved because capture or processing failed."),
        retry_type: String::from_str("meeting"),
    }
}

/// The item for a watched file at `path` that failed to process, retried
/// as the watch folder's route type.
pub fn watch_failed_item(path: &str, route_type: &str) -> (r: RecoveryItem)
    ensures
        item_view(r) == (
            "watch-failed"@,
            meetings::recovery_title_of(path@, "Failed watched file"@),
            path@,
            "A watched audio file failed to process and is waiting for manual retry."@,
            route_type@,
        ),
{
    RecoveryItem {
        kind: String::from_str("watch-failed"),
        title: meetings::recovery_title(path, "Failed watched file"),
        path: path.to_owned(),
        detail: String::from_str("A watched audio file failed to process and is waiting for manual retry."),
        retry_type: route_type.to_owned(),
    }
}

/// Where a stable newest-first insertion puts an item modified at `t`:
/// after every item at least as recent.
pub open spec fn recent_pos(s: Seq<(u128, ItemView)>, t: u128) -> nat
    decreases s.len(),
{
    if s.len() == 0 {
        0
    } else if s[0].0 < t {
        0
    } else {
        1 + recent_pos(s.drop_first(), t)
    }
}

/// Items ordered newest first, those modified at the same time in the
/// order found (a stable sort by descending time).
pub open spec fn by_recency(found: Seq<(u128, ItemView)>) -> Seq<(u128, ItemView)>
    decreases found.len(),
{
    if found.len() == 0 {
        seq![]
    } else {
        let s = by_recency(found.drop_last());
        s.insert(recent_pos(s, found.last().0) as int, found.last())
    }
}

/// The views of found items with their modification times.
pub open spec fn found_views(v: Seq<(u128, RecoveryItem)>) -> Seq<(u128, ItemView)> {
    v.map_values(|x: (u128, RecoveryItem)| (x.0, item_view(x.1)))
}

/// Orders found items (with their modification times) newest first; see
/// `by_recency`.
pub fn recovery_newest_first(found: Vec<(u128, RecoveryItem)>) -> (r: Vec<RecoveryItem>)
    ensures
        r@.map_values(|x: RecoveryItem| item_view(x)) == by_recency(found_views(found@)).map_values(
            |x: (u128, ItemView)| x.1,
        ),
{
    let ghost fv = found_views(found@);
    let n = found.len();
    let mut rest = found;
    let mut sorted: Vec<(u128, RecoveryItem)> = Vec::new();
    let mut k: usize = 0;
    assert(fv.take(0) =~= Seq::<(u128, ItemView)>::empty());
    assert(found_views(sorted@) =~= Seq::<(u128, ItemView)>::empty());
    while k < n
        invariant
            n == fv.len(),
            k <= n,
            rest@.len() == n - k,
            forall|j: int| 0 <= j < rest@.len() ==> (#[trigger] rest@[j]).0 == fv[k + j].0 && item_view(rest@[j].1)
                == fv[k + j].1,
            found_views(sorted@) == by_recency(fv.take(k as int)),
        decreases n - k,
    {
        let x = rest.remove(0);
        assert(x.0 == fv[k as int].0 && item_view(x.1) == fv[k as int].1);
        assert(fv.take(k + 1).drop_last() =~= fv.take(k as int));
        let ghost sv = found_views(sorted@);
        let mut i: usize = 0;
        assert(sv.skip(0) =~= sv);
        while i < sorted.len() && !(sorted[i].0 < x.0)
            invariant
                i <= sorted@.len(),
                sv == found_views(sorted@),
                recent_pos(sv, x.0) == i + recent_pos(sv.skip(i as int), x.0),
            decreases sorted@.len() - i,
        {
            assert(sv.skip(i as int)[0] == sv[i as int]);
            assert(sv.skip(i as int).drop_first() =~= sv.skip(i + 1));
            i = i + 1;
        }
        if i < sorted.len() {
            assert(sv.skip(i as int)[0] == sv[i as int]);
        }
        let ghost xv = (x.0, item_view(x.1));
        sorted.insert(i, x);
        assert(found_views(sorted@) =~= sv.insert(i as int, xv));
        k = k + 1;
    }
    assert(fv.take(n as int) =~= fv);
    let ghost sv = found_views(sorted@);
    let mut out: Vec<RecoveryItem> = Vec::new();
    let mut sorted = sorted;
    let m = sorted.len();
    let mut j: usize = 0;
    while j < m
        invariant
            m == sv.len(),
            j <= m,
            sorted@.len() == m - j,
            forall|q: int| 0 <= q < sorted@.len() ==> item_view((#[trigger] sorted@[q]).1) == sv[j + q].1,
            out@.map_values(|x: RecoveryItem| item_view(x)) == sv.take(j as int).map_values(|x: (u128, ItemView)| x.1),
        decreases m - j,
    {
        let (_, item) = sorted.remove(0);
        let ghost before = out@.map_values(|x: RecoveryItem| item_view(x));
        assert(item_view(item) == sv[j as int].1);
        out.push(item);
        assert(out@.map_values(|x: RecoveryItem| item_view(x)) =~= before.push(sv[j as int].1));
        assert(sv.take(j + 1).map_values(|x: (u128, ItemView)| x.1) =~= sv.take(j as int).map_values(
            |x: (u128, ItemView)| x.1,
        ).push(sv[j as int].1));
        j = j + 1;
    }
    assert(sv.take(m as int) =~= sv);
    out
}

/// Why a recovery item cannot be retried now: a recording or processing
/// is under way.
pub fn retry_refusal(recording: bool, processing: bool) -> (r: Option<String>)
    ensures
        (recording || processing) ==> (r matches Some(m) && m@
            == "Finish the current recording before retrying recovery items."@),
        !(recording || processing) ==> r is None,
{
    if recording || processing {
        Some(String::from_str("Finish the current recording before retrying recovery items."))
    } else {
        None
    }
}

/// The error for a recovery item that no longer exists.
pub fn missing_item_error(path: &str) -> (r: String)
    ensures
        r@ == "Recovery item not found: "@ + path@,
{
    numbers::concat2("Recovery item not found: ", path)
}

/// The kind a recovery item is retried as: meetings and memos only.
pub fn retry_content_type(content_type: &str) -> (r: Result<ContentType, String>)
    ensures
        content_type@ == "meeting"@ ==> (r matches Ok(t) && t == ContentType::Meeting),
        content_type@ == "memo"@ ==> (r matches Ok(t) && t == ContentType::Memo),
        content_type@ != "meeting"@ && content_type@ != "memo"@ ==> (r matches Err(e) && e@
            == "Unsupported recovery type: "@ + content_type@),
{
    let c = text::chars_of(content_type);
    proof {
        reveal_strlit("meeting");
        reveal_strlit("memo");
        assert("meeting"@.len() != "memo"@.len());
    }
    if text::eq_lit(c.as_slice(), "meeting") {
        Ok(ContentType::Meeting)
    } else if text::eq_lit(c.as_slice(), "memo") {
        Ok(ContentType::Memo)
    } else {
        Err(numbers::concat2("Unsupported recovery type: ", content_type))
    }
}

/// The progress text of a retry in `stage`.
pub open spec fn retry_stage_text(stage: PipelineStage) -> Seq<char> {
    match stage {
        PipelineStage::Transcribing => "Transcribing..."@,
        PipelineStage::Diarizing => "Identifying speakers..."@,
        PipelineStage::Summarizing => "Generating summary..."@,
        PipelineStage::Saving => "Saving..."@,
    }
}

/// The progress text of a retry; see `retry_stage_text`.
pub fn retry_stage_label(stage: PipelineStage) -> (r: &'static str)
    ensures
        r@ == retry_stage_text(stage),
{
    match stage {
        PipelineStage::Transcribing => "Transcribing...",
        PipelineStage::Diarizing => "Identifying speakers...",
        PipelineStage::Summarizing => "Generating summary...",
        PipelineStage::Saving => "Saving...",
    }
}

/// The notice after a retry that produced `title` at `path`.
pub fn retry_success_notice(title: &str, path: &str) -> (r: OutputNotice)
    ensures
        r.kind@ == "saved"@,
        r.title@ == title@,
        r.path@ == path@,
        r.detail@ == "Recovery item was processed successfully."@,
{
    OutputNotice {
        kind: String::from_str("saved"),
        title: title.to_owned(),
        path: path.to_owned(),
        detail: String::from_str("Recovery item was processed successfully."),
    }
}

/// The notice after a retry of the item at `path` failed with `error`.
pub fn retry_failure_notice(path: &str, error: &str) -> (r: OutputNotice)
    ensures
        r.kind@ == "error"@,
        r.title@ == "Retry failed"@,
        r.path@ == path@,
        r.detail@ == "Recovery retry failed: "@ + error@,
{
    OutputNotice {
        kind: String::from_str("error"),
        title: String::from_str("Retry failed"),
        path: path.to_owned(),
        detail: numbers::concat2("Recovery retry failed: ", error),
    }
}

/// The elapsed time of a recording that started at `start` seconds (the
/// text of the start file, trimmed) at `now` seconds: `"m:ss"`, never
/// below zero; none when the start does not read as a number.
pub open spec fn elapsed_text(start: Seq<char>, now: u64) -> Option<Seq<char>> {
    match numbers::parsed_u64(text::trim(start)) {
        Some(s) => {
            let e: nat = if now >= s {
                (now - s) as nat
            } else {
                0
            };
            let secs = e % 60;
            Some(
                numbers::decimal(e / 60) + ":"@ + (if secs < 10 {
                    "0"@
                } else {
                    seq![]
                }) + numbers::decimal(secs),
            )
        },
        None => None,
    }
}

/// The elapsed time shown for a recording; see `elapsed_text`.
pub fn elapsed_label(start: &str, now: u64) -> (r: Option<String>)
    ensures
        text::opt_string(r) == elapsed_text(start@, now),
{
    let t = text::trim_chars(text::chars_of(start).as_slice());
    match numbers::parse_u64(t.as_slice()) {
        Some(s) => {
            let e = now.saturating_sub(s);
            let secs = e % 60;
            let mut r = numbers::with_number("", e / 60, ":");
            if secs < 10 {
                r.append("0");
            }
            numbers::push_decimal(&mut r, secs);
            proof {
                reveal_strlit("");
                assert(""@ =~= Seq::<char>::empty());
            }
            assert(r@ =~= elapsed_text(start@, now)->0);
            Some(r)
        },
        None => None,
    }
}

/// Whether the status shows a recording: this app records, or another
/// process does while nothing is being processed.
pub fn shows_recording(recording: bool, pid_recording: bool, processing: bool) -> (r: bool)
    ensures
        r == (recording || (pid_recording && !processing)),
{
    recording || (pid_recording && !processing)
}

/// Whether items are ordered newest first.
pub open spec fn newest_first_order(s: Seq<(u128, ItemView)>) -> bool {
    forall|i: int, j: int| 0 <= i < j < s.len() ==> s[i].0 >= s[j].0
}

proof fn lemma_recent_pos(s: Seq<(u128, ItemView)>, t: u128)
    requires
        newest_first_order(s),
    ensures
        recent_pos(s, t) <= s.len(),
        forall|k: int| 0 <= k < recent_pos(s, t) ==> s[k].0 >= t,
        forall|k: int| recent_pos(s, t) <= k < s.len() ==> s[k].0 < t,
    decreases s.len(),
{
    if s.len() > 0 && s[0].0 >= t {
        let r = s.drop_first();
        assert(newest_first_order(r)) by {
            assert forall|i: int, j: int| 0 <= i < j < r.len() implies r[i].0 >= r[j].0 by {
                assert(r[i] == s[i + 1] && r[j] == s[j + 1]);
            }
        }
        lemma_recent_pos(r, t);
        assert forall|k: int| recent_pos(s, t) <= k < s.len() implies s[k].0 < t by {
            assert(s[k] == r[k - 1]);
        }
        assert forall|k: int| 0 <= k < recent_pos(s, t) implies s[k].0 >= t by {
            if k > 0 {
                assert(s[k] == r[k - 1]);
            }
        }
    }
}

/// Recovery items come newest first: whatever was found, in whatever
/// order, the listed items never get more recent further down, and as
/// many are listed as were found.
pub proof fn recovery_items_are_newest_first(found: Seq<(u128, ItemView)>)
    ensures
        newest_first_order(by_recency(found)),
        by_recency(found).len() == found.len(),
    decreases found.len(),
{
    if found.len() > 0 {
        let s = by_recency(found.drop_last());
        recovery_items_are_newest_first(found.drop_last());
        let x = found.last();
        let p = recent_pos(s, x.0);
        lemma_recent_pos(s, x.0);
        let r = s.insert(p as int, x);
        assert forall|i: int, j: int| 0 <= i < j < r.len() implies r[i].0 >= r[j].0 by {
            if j < p {
                assert(r[i] == s[i] && r[j] == s[j]);
            } else if j == p {
                assert(r[j] == x);
                assert(r[i] == s[i]);
            } else if i < p {
                assert(r[i] == s[i] && r[j] == s[j - 1]);
            } else if i == p {
                assert(r[i] == x && r[j] == s[j - 1]);
            } else {
                assert(r[i] == s[i - 1] && r[j] == s[j - 1]);
            }
        }
    }
}

} // verus!

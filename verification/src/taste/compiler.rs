//! Labels each file-modifying proposal of a session with what became of it.
//!
//! Confidences are kept in hundredths: 100 stands for full confidence.
use vstd::prelude::*;

use crate::taste::parse::{ContentRef, ParseKind, ParsedEvent};
use crate::taste::timeline::{normalize_file_path, normalize_spec, FileTimelineRow};
use crate::text::{
    chars_eq, chars_of, contains_line, has_suffix, is_suffix, is_ws, is_whitespace, lines, lines_of,
    owned, rows, slice_chars, string_from_chars, str_eq,
};

verus! {

/// Version tag stored on compiled preference rows for idempotent re-extraction.
pub const EXTRACTOR_VERSION: &'static str = "0.1.0";

/// Minimum confidence, in hundredths, for a proposal to count toward
/// high-confidence coverage.
pub const HIGH_CONFIDENCE_THRESHOLD: u8 = 100;

/// Labeled outcome for a detected tool proposal.
#[derive(Debug, Clone, Copy, PartialEq, Eq, Structural)]
pub enum PreferenceOutcome {
    Accepted,
    Rejected,
    Edited,
}

pub open spec fn outcome_name(o: PreferenceOutcome) -> Seq<char> {
    match o {
        PreferenceOutcome::Accepted => "accepted"@,
        PreferenceOutcome::Rejected => "rejected"@,
        PreferenceOutcome::Edited => "edited"@,
    }
}

pub open spec fn outcome_named(v: Seq<char>) -> Option<PreferenceOutcome> {
    if v == "accepted"@ {
        Some(PreferenceOutcome::Accepted)
    } else if v == "rejected"@ {
        Some(PreferenceOutcome::Rejected)
    } else if v == "edited"@ {
        Some(PreferenceOutcome::Edited)
    } else {
        None
    }
}

impl PreferenceOutcome {
    pub fn as_str(self) -> (r: &'static str)
        ensures
            r@ == outcome_name(self),
    {
        match self {
            PreferenceOutcome::Accepted => "accepted",
            PreferenceOutcome::Rejected => "rejected",
            PreferenceOutcome::Edited => "edited",
        }
    }

    pub fn from_db_str(value: &str) -> (r: Option<PreferenceOutcome>)
        ensures
            r == outcome_named(value@),
    {
        if str_eq(value, "accepted") {
            Some(PreferenceOutcome::Accepted)
        } else if str_eq(value, "rejected") {
            Some(PreferenceOutcome::Rejected)
        } else if str_eq(value, "edited") {
            Some(PreferenceOutcome::Edited)
        } else {
            None
        }
    }
}

/// How a proposal was linked to file state for outcome detection.
#[derive(Debug, Clone, Copy, PartialEq, Eq, Structural)]
pub enum EvidenceKind {
    DirectEdit,
    DirectWrite,
    BashCorrelation,
    PermissionDenial,
    MissingFinalState,
}

pub open spec fn evidence_name(e: EvidenceKind) -> Seq<char> {
    match e {
        EvidenceKind::DirectEdit => "direct_edit"@,
        EvidenceKind::DirectWrite => "direct_write"@,
        EvidenceKind::BashCorrelation => "bash_correlation"@,
        EvidenceKind::PermissionDenial => "permission_denial"@,
        EvidenceKind::MissingFinalState => "missing_final_state"@,
    }
}

pub open spec fn evidence_named(v: Seq<char>) -> Option<EvidenceKind> {
    if v == "direct_edit"@ {
        Some(EvidenceKind::DirectEdit)
    } else if v == "direct_write"@ {
        Some(EvidenceKind::DirectWrite)
    } else if v == "bash_correlation"@ {
        Some(EvidenceKind::BashCorrelation)
    } else if v == "permission_denial"@ {
        Some(EvidenceKind::PermissionDenial)
    } else if v == "missing_final_state"@ {
        Some(EvidenceKind::MissingFinalState)
    } else {
        None
    }
}

impl EvidenceKind {
    pub fn as_str(self) -> (r: &'static str)
        ensures
            r@ == evidence_name(self),
    {
        match self {
            EvidenceKind::DirectEdit => "direct_edit",
            EvidenceKind::DirectWrite => "direct_write",
            EvidenceKind::BashCorrelation => "bash_correlation",
            EvidenceKind::PermissionDenial => "permission_denial",
            EvidenceKind::MissingFinalState => "missing_final_state",
        }
    }

    pub fn from_db_str(value: &str) -> (r: Option<EvidenceKind>)
        ensures
            r == evidence_named(value@),
    {
        if str_eq(value, "direct_edit") {
            Some(EvidenceKind::DirectEdit)
        } else if str_eq(value, "direct_write") {
            Some(EvidenceKind::DirectWrite)
        } else if str_eq(value, "bash_correlation") {
            Some(EvidenceKind::BashCorrelation)
        } else if str_eq(value, "permission_denial") {
            Some(EvidenceKind::PermissionDenial)
        } else if str_eq(value, "missing_final_state") {
            Some(EvidenceKind::MissingFinalState)
        } else {
            None
        }
    }
}

/// Reading back a stored outcome or evidence name gives the value that was stored.
pub proof fn lemma_db_names_round_trip(o: PreferenceOutcome, e: EvidenceKind)
    ensures
        outcome_named(outcome_name(o)) == Some(o),
        evidence_named(evidence_name(e)) == Some(e),
{
    reveal_strlit("accepted");
    reveal_strlit("rejected");
    reveal_strlit("edited");
    reveal_strlit("direct_edit");
    reveal_strlit("direct_write");
    reveal_strlit("bash_correlation");
    reveal_strlit("permission_denial");
    reveal_strlit("missing_final_state");
    assert("accepted"@[0] != "rejected"@[0] && "accepted"@[0] != "edited"@[0] && "rejected"@[0]
        != "edited"@[0]);
    assert("direct_edit"@.len() != "direct_write"@.len());
    assert("direct_edit"@[0] != "bash_correlation"@[0] && "direct_edit"@[0]
        != "permission_denial"@[0] && "direct_edit"@[0] != "missing_final_state"@[0]);
    assert("direct_write"@[0] != "bash_correlation"@[0] && "direct_write"@[0]
        != "permission_denial"@[0] && "direct_write"@[0] != "missing_final_state"@[0]);
    assert("bash_correlation"@[0] != "permission_denial"@[0] && "bash_correlation"@[0]
        != "missing_final_state"@[0] && "permission_denial"@[0] != "missing_final_state"@[0]);
}

// ---------------------------------------------------------------------------
// Line effects
// ---------------------------------------------------------------------------
/// A line of `after` that `before` does not have.
pub open spec fn new_line(before: Seq<char>, after: Seq<char>, l: Seq<char>) -> bool {
    lines_of(after).contains(l) && !lines_of(before).contains(l)
}

/// The change from `before` to `after` survives in `final_content`: every line
/// it added is there, and every line it removed is not.
pub open spec fn effect_present_spec(before: Seq<char>, after: Seq<char>, final_content: Seq<char>) -> bool {
    &&& forall|l: Seq<char>| new_line(before, after, l) ==> lines_of(final_content).contains(l)
    &&& forall|l: Seq<char>| new_line(after, before, l) ==> !lines_of(final_content).contains(l)
}

/// Some, but not all, of the lines the change added survive in `final_content`.
pub open spec fn partial_effect_present_spec(
    before: Seq<char>,
    after: Seq<char>,
    final_content: Seq<char>,
) -> bool {
    &&& exists|l: Seq<char>| new_line(before, after, l) && lines_of(final_content).contains(l)
    &&& exists|l: Seq<char>| new_line(before, after, l) && !lines_of(final_content).contains(l)
}

/// Whether every line of `from` not in `to`s lines is (`wanted`) or is not in `fin`.
fn lines_all(
    from: &Vec<Vec<char>>,
    to: &Vec<Vec<char>>,
    fin: &Vec<Vec<char>>,
    wanted: bool,
) -> (r: bool)
    ensures
        r == forall|l: Seq<char>|
            rows(from@).contains(l) && !rows(to@).contains(l) ==> rows(fin@).contains(l) == wanted,
{
    let mut i: usize = 0;
    while i < from.len()
        invariant
            i <= from.len(),
            forall|j: int|
                0 <= j < i ==> !rows(to@).contains(#[trigger] rows(from@)[j]) ==> rows(
                    fin@,
                ).contains(rows(from@)[j]) == wanted,
        decreases from.len() - i,
    {
        let line = &from[i];
        if !contains_line(to, line.as_slice()) && contains_line(fin, line.as_slice()) != wanted {
            proof {
                assert(rows(from@).contains(rows(from@)[i as int]));
            }
            return false;
        }
        i = i + 1;
    }
    proof {
        assert forall|l: Seq<char>|
            rows(from@).contains(l) && !rows(to@).contains(l) implies rows(fin@).contains(l)
            == wanted by {
            let j = choose|j: int| 0 <= j < rows(from@).len() && rows(from@)[j] == l;
            assert(rows(from@)[j] == l);
        }
    }
    true
}

/// Whether some line of `from` not among `to` is (`wanted`) or is not in `fin`.
fn lines_any(
    from: &Vec<Vec<char>>,
    to: &Vec<Vec<char>>,
    fin: &Vec<Vec<char>>,
    wanted: bool,
) -> (r: bool)
    ensures
        r == exists|l: Seq<char>|
            rows(from@).contains(l) && !rows(to@).contains(l) && rows(fin@).contains(l) == wanted,
{
    let all = lines_all(from, to, fin, !wanted);
    !all
}

/// `effect_present_spec`.
pub fn effect_present(before: &str, after: &str, final_content: &str) -> (r: bool)
    ensures
        r == effect_present_spec(before@, after@, final_content@),
{
    let b = lines(before);
    let a = lines(after);
    let f = lines(final_content);
    lines_all(&a, &b, &f, true) && lines_all(&b, &a, &f, false)
}

/// `partial_effect_present_spec`.
pub fn partial_effect_present(before: &str, after: &str, final_content: &str) -> (r: bool)
    ensures
        r == partial_effect_present_spec(before@, after@, final_content@),
{
    let b = lines(before);
    let a = lines(after);
    let f = lines(final_content);
    lines_any(&a, &b, &f, true) && lines_any(&a, &b, &f, false)
}


// ---------------------------------------------------------------------------
// Examples
// ---------------------------------------------------------------------------
/// One export-ready labeled preference row. `confidence` is in hundredths.
#[derive(Debug, Clone, PartialEq, Eq)]
pub struct PreferenceExample {
    pub source: String,
    pub source_session_id: String,
    pub generation: usize,
    pub proposal_event_seq: usize,
    pub tool_use_id: String,
    pub file_path: Option<String>,
    pub tool_name: String,
    pub proposal_content: Option<String>,
    pub context: Option<String>,
    pub outcome: PreferenceOutcome,
    pub confidence: u8,
    pub evidence_kind: EvidenceKind,
    pub extractor_version: String,
}

pub struct ExampleView {
    pub source: Seq<char>,
    pub source_session_id: Seq<char>,
    pub generation: usize,
    pub proposal_event_seq: usize,
    pub tool_use_id: Seq<char>,
    pub file_path: Option<Seq<char>>,
    pub tool_name: Seq<char>,
    pub proposal_content: Option<Seq<char>>,
    pub context: Option<Seq<char>>,
    pub outcome: PreferenceOutcome,
    pub confidence: u8,
    pub evidence_kind: EvidenceKind,
    pub extractor_version: Seq<char>,
}

pub open spec fn text_opt(s: Option<String>) -> Option<Seq<char>> {
    match s {
        Some(t) => Some(t@),
        None => None,
    }
}

impl View for PreferenceExample {
    type V = ExampleView;

    open spec fn view(&self) -> ExampleView {
        ExampleView {
            source: self.source@,
            source_session_id: self.source_session_id@,
            generation: self.generation,
            proposal_event_seq: self.proposal_event_seq,
            tool_use_id: self.tool_use_id@,
            file_path: text_opt(self.file_path),
            tool_name: self.tool_name@,
            proposal_content: text_opt(self.proposal_content),
            context: text_opt(self.context),
            outcome: self.outcome,
            confidence: self.confidence,
            evidence_kind: self.evidence_kind,
            extractor_version: self.extractor_version@,
        }
    }
}

/// Joins parsed proposals with materialized timelines and labels outcomes.
#[derive(Debug, Default)]
pub struct PreferenceCompiler;

pub open spec fn modifying_tool(n: Seq<char>) -> bool {
    n == "Edit"@ || n == "Write"@ || n == "NotebookEdit"@ || n == "Bash"@
}

pub open spec fn evidence_for_tool(n: Seq<char>) -> EvidenceKind {
    if n == "Edit"@ || n == "NotebookEdit"@ {
        EvidenceKind::DirectEdit
    } else if n == "Write"@ {
        EvidenceKind::DirectWrite
    } else if n == "Bash"@ {
        EvidenceKind::BashCorrelation
    } else {
        EvidenceKind::MissingFinalState
    }
}

pub open spec fn base_confidence(n: Seq<char>) -> u8 {
    if n == "Edit"@ || n == "Write"@ || n == "NotebookEdit"@ {
        100
    } else if n == "Bash"@ {
        60
    } else {
        30
    }
}

/// Half the base confidence, but at least 20.
pub open spec fn edited_confidence(base: u8) -> u8 {
    if base / 2 > 20 {
        (base / 2) as u8
    } else {
        20
    }
}

/// A permission denial names tool call `id`.
pub open spec fn denied(events: Seq<ParsedEvent>, id: Seq<char>) -> bool {
    exists|k: int|
        0 <= k < events.len() && #[trigger] events[k].kind == ParseKind::PermissionDenial
            && text_opt(events[k].tool_ref) == Some(id)
}

/// A tool result answers tool call `id`.
pub open spec fn executed(events: Seq<ParsedEvent>, id: Seq<char>) -> bool {
    exists|k: int|
        0 <= k < events.len() && #[trigger] events[k].kind == ParseKind::ToolResult && text_opt(
            events[k].tool_ref,
        ) == Some(id)
}

/// Row `j` comes after row `i` in a file's timeline order: by seq, then by position.
pub open spec fn after_in_order(rows: Seq<FileTimelineRow>, i: int, j: int) -> bool {
    rows[i].seq < rows[j].seq || (rows[i].seq == rows[j].seq && i < j)
}

/// Which rows of a file a lookup considers.
pub enum RowPick {
    /// Rows of events before the given seq.
    Before(usize),
    /// Rows triggered by the given tool call.
    Trigger(Seq<char>),
    /// Rows with content.
    WithContent,
}

pub open spec fn picks(rows: Seq<FileTimelineRow>, path: Seq<char>, pick: RowPick, i: int) -> bool {
    &&& 0 <= i < rows.len()
    &&& rows[i].file_path@ == path
    &&& match pick {
        RowPick::Before(seq) => rows[i].event_seq < seq,
        RowPick::Trigger(id) => text_opt(rows[i].trigger_event_ref) == Some(id),
        RowPick::WithContent => rows[i].content is Some,
    }
}

/// `i` is the last row, in timeline order, of those `pick` considers.
pub open spec fn is_last(rows: Seq<FileTimelineRow>, path: Seq<char>, pick: RowPick, i: int) -> bool {
    &&& picks(rows, path, pick, i)
    &&& forall|j: int| j != i && picks(rows, path, pick, j) ==> after_in_order(rows, j, i)
}

/// The content of the last row `pick` considers.
pub open spec fn last_content(rows: Seq<FileTimelineRow>, path: Seq<char>, pick: RowPick) -> Option<
    Seq<char>,
> {
    if exists|i: int| is_last(rows, path, pick, i) {
        text_opt(rows[choose|i: int| is_last(rows, path, pick, i)].content)
    } else {
        None
    }
}

/// Row `i` of the file is about an event after `seq`.
pub open spec fn row_after(rows: Seq<FileTimelineRow>, path: Seq<char>, seq: usize, i: int) -> bool {
    0 <= i < rows.len() && rows[i].file_path@ == path && rows[i].event_seq > seq
}

/// Row `i` comes before row `j` by event seq, ties in timeline order.
pub open spec fn sooner(rows: Seq<FileTimelineRow>, i: int, j: int) -> bool {
    rows[i].event_seq < rows[j].event_seq || (rows[i].event_seq == rows[j].event_seq
        && after_in_order(rows, i, j))
}

/// `i` is the first row of an event after `seq`.
pub open spec fn is_first_after(rows: Seq<FileTimelineRow>, path: Seq<char>, seq: usize, i: int) -> bool {
    &&& row_after(rows, path, seq, i)
    &&& forall|j: int| j != i && #[trigger] row_after(rows, path, seq, j) ==> sooner(rows, i, j)
}

pub open spec fn has_timeline(rows: Seq<FileTimelineRow>, path: Seq<char>) -> bool {
    exists|i: int| 0 <= i < rows.len() && #[trigger] rows[i].file_path@ == path
}

/// The file's content just before the proposal.
pub open spec fn before_state(rows: Seq<FileTimelineRow>, path: Seq<char>, seq: usize) -> Option<
    Seq<char>,
> {
    last_content(rows, path, RowPick::Before(seq))
}

/// The file's content right after the proposal was applied: the row it
/// triggered, or for shell commands the first row after it.
pub open spec fn post_apply(
    tool_name: Seq<char>,
    id: Seq<char>,
    seq: usize,
    rows: Seq<FileTimelineRow>,
    path: Seq<char>,
) -> Option<Seq<char>> {
    if exists|i: int| picks(rows, path, RowPick::Trigger(id), i) {
        last_content(rows, path, RowPick::Trigger(id))
    } else if tool_name != "Bash"@ {
        None
    } else if exists|i: int| is_first_after(rows, path, seq, i) {
        text_opt(rows[choose|i: int| is_first_after(rows, path, seq, i)].content)
    } else {
        None
    }
}

/// The outcome, confidence and evidence for a proposal that was not denied.
pub open spec fn classify_spec(
    tool_name: Seq<char>,
    file_path: Option<Seq<char>>,
    id: Seq<char>,
    seq: usize,
    rows: Seq<FileTimelineRow>,
    events: Seq<ParsedEvent>,
) -> (PreferenceOutcome, u8, EvidenceKind) {
    let evidence = evidence_for_tool(tool_name);
    let base = base_confidence(tool_name);
    match file_path {
        None => (PreferenceOutcome::Rejected, 20, EvidenceKind::MissingFinalState),
        Some(path) => if !has_timeline(rows, path) {
            if tool_name == "Write"@ && executed(events, id) {
                (PreferenceOutcome::Accepted, 40, EvidenceKind::MissingFinalState)
            } else {
                (PreferenceOutcome::Rejected, 30, EvidenceKind::MissingFinalState)
            }
        } else {
            let before = match before_state(rows, path, seq) {
                Some(b) => b,
                None => Seq::empty(),
            };
            match (post_apply(tool_name, id, seq, rows, path), last_content(rows, path, RowPick::WithContent)) {
                (None, _) => (PreferenceOutcome::Rejected, base, evidence),
                (Some(post), Some(fin)) => if effect_present_spec(before, post, fin) {
                    (PreferenceOutcome::Accepted, base, evidence)
                } else if partial_effect_present_spec(before, post, fin) {
                    (PreferenceOutcome::Edited, edited_confidence(base), evidence)
                } else {
                    (PreferenceOutcome::Rejected, base, evidence)
                },
                (Some(_), None) => (PreferenceOutcome::Rejected, 30, EvidenceKind::MissingFinalState),
            }
        },
    }
}

/// How a proposal that reached the file is labelled from what survives at the
/// end of the session: a change that survives whole is accepted at the tool's
/// base confidence; a change only some of whose added lines survive is edited,
/// at half the base confidence but never below 20 (so never above the base);
/// a change none of whose added lines survive (and not whole) is rejected at
/// the base confidence. The evidence is the tool's in each case.
pub proof fn lemma_outcome_follows_what_survives(
    tool_name: Seq<char>,
    path: Seq<char>,
    id: Seq<char>,
    seq: usize,
    rows: Seq<FileTimelineRow>,
    events: Seq<ParsedEvent>,
    post: Seq<char>,
    fin: Seq<char>,
)
    requires
        has_timeline(rows, path),
        post_apply(tool_name, id, seq, rows, path) == Some(post),
        last_content(rows, path, RowPick::WithContent) == Some(fin),
    ensures
        ({
            let before = match before_state(rows, path, seq) {
                Some(b) => b,
                None => Seq::empty(),
            };
            let r = classify_spec(tool_name, Some(path), id, seq, rows, events);
            let base = base_confidence(tool_name) as int;
            &&& r.2 == evidence_for_tool(tool_name)
            &&& effect_present_spec(before, post, fin) ==> r.0 == PreferenceOutcome::Accepted && r.1 == base
            &&& !effect_present_spec(before, post, fin) && partial_effect_present_spec(before, post, fin) ==> {
                &&& r.0 == PreferenceOutcome::Edited
                &&& r.1 == (if base / 2 > 20 { base / 2 } else { 20 })
                &&& 20 <= r.1 <= if base > 20 { base } else { 20 }
            }
            &&& !effect_present_spec(before, post, fin) && !partial_effect_present_spec(before, post, fin)
                ==> r.0 == PreferenceOutcome::Rejected && r.1 == base
        }),
{
}

// Shell command targets ------------------------------------------------------
/// `s[a..b]` is a whitespace-separated word of `s`.
pub open spec fn word_at(s: Seq<char>, a: int, b: int) -> bool {
    &&& 0 <= a < b <= s.len()
    &&& forall|k: int| a <= k < b ==> !is_ws(#[trigger] s[k])
    &&& a == 0 || is_ws(s[a - 1])
    &&& b == s.len() || is_ws(s[b])
}

/// A word that looks like a file: it has a slash or a `.rs` / `.ts` ending.
pub open spec fn target_like(w: Seq<char>) -> bool {
    w.contains('/') || is_suffix(".rs"@, w) || is_suffix(".ts"@, w)
}

pub open spec fn last_target_word(s: Seq<char>, a: int, b: int) -> bool {
    &&& word_at(s, a, b)
    &&& target_like(s.subrange(a, b))
    &&& forall|a2: int, b2: int|
        word_at(s, a2, b2) && target_like(#[trigger] s.subrange(a2, b2)) ==> a2 <= a
}

pub open spec fn quote_or_redirect(c: char) -> bool {
    c == '>' || c == '"' || c == '\''
}

pub open spec fn strip_leading_quotes(w: Seq<char>) -> Seq<char>
    decreases w.len(),
{
    if w.len() > 0 && quote_or_redirect(w[0]) {
        strip_leading_quotes(w.drop_first())
    } else {
        w
    }
}

pub open spec fn strip_trailing_quotes(w: Seq<char>) -> Seq<char>
    decreases w.len(),
{
    if w.len() > 0 && quote_or_redirect(w.last()) {
        strip_trailing_quotes(w.drop_last())
    } else {
        w
    }
}

/// The file a shell command most likely wrote: its last file-like word, without
/// surrounding quotes and redirections, relative to `cwd`.
pub open spec fn bash_target_spec(command: Option<Seq<char>>, cwd: Option<Seq<char>>) -> Option<
    Seq<char>,
> {
    match command {
        None => None,
        Some(c) => if exists|a: int, b: int| last_target_word(c, a, b) {
            let (a, b) = choose|a: int, b: int| last_target_word(c, a, b);
            let t = strip_trailing_quotes(strip_leading_quotes(c.subrange(a, b)));
            if t.len() == 0 {
                None
            } else {
                Some(normalize_spec(t, cwd))
            }
        } else {
            None
        },
    }
}

pub open spec fn content_text(c: Option<ContentRef>) -> Option<Seq<char>> {
    match c {
        Some(ContentRef::Inline(t)) => Some(t@),
        _ => None,
    }
}

/// The proposal events that yield an example.
pub open spec fn counts_as_proposal(e: ParsedEvent) -> bool {
    &&& e.kind == ParseKind::ToolProposal
    &&& e.tool_name is Some
    &&& modifying_tool(e.tool_name->0@)
    &&& e.tool_ref is Some
}

/// The example compiled for proposal `e`, numbered `generation`.
pub open spec fn example_spec(
    source: Seq<char>,
    session_id: Seq<char>,
    cwd: Option<Seq<char>>,
    events: Seq<ParsedEvent>,
    rows: Seq<FileTimelineRow>,
    e: ParsedEvent,
    generation: usize,
) -> ExampleView {
    let tool_name = e.tool_name->0@;
    let id = e.tool_ref->0@;
    let content = content_text(e.content_or_ref);
    let file_path = match e.file_path {
        Some(p) => Some(normalize_spec(p@, cwd)),
        None => bash_target_spec(content, cwd),
    };
    let (outcome, confidence, evidence_kind) = if denied(events, id) {
        (PreferenceOutcome::Rejected, 100u8, EvidenceKind::PermissionDenial)
    } else {
        classify_spec(tool_name, file_path, id, e.seq, rows, events)
    };
    ExampleView {
        source,
        source_session_id: session_id,
        generation,
        proposal_event_seq: e.seq,
        tool_use_id: id,
        file_path,
        tool_name,
        proposal_content: content,
        context: match file_path {
            Some(p) => before_state(rows, p, e.seq),
            None => None,
        },
        outcome,
        confidence,
        evidence_kind,
        extractor_version: "0.1.0"@,
    }
}

/// The examples of the proposals among `prefix`, in order, numbered from 0.
pub open spec fn compile_spec(
    source: Seq<char>,
    session_id: Seq<char>,
    cwd: Option<Seq<char>>,
    events: Seq<ParsedEvent>,
    rows: Seq<FileTimelineRow>,
    prefix: Seq<ParsedEvent>,
) -> Seq<ExampleView>
    decreases prefix.len(),
{
    if prefix.len() == 0 {
        Seq::empty()
    } else {
        let before = compile_spec(source, session_id, cwd, events, rows, prefix.drop_last());
        if counts_as_proposal(prefix.last()) {
            before.push(
                example_spec(
                    source,
                    session_id,
                    cwd,
                    events,
                    rows,
                    prefix.last(),
                    before.len() as usize,
                ),
            )
        } else {
            before
        }
    }
}

pub open spec fn example_views(v: Seq<PreferenceExample>) -> Seq<ExampleView> {
    v.map_values(|e: PreferenceExample| e@)
}


// Exec ------------------------------------------------------------------------
/// A row lookup, as executable data.
pub enum RowSelect {
    Before(usize),
    Trigger(Vec<char>),
    WithContent,
}

impl View for RowSelect {
    type V = RowPick;

    open spec fn view(&self) -> RowPick {
        match self {
            RowSelect::Before(seq) => RowPick::Before(*seq),
            RowSelect::Trigger(id) => RowPick::Trigger(id@),
            RowSelect::WithContent => RowPick::WithContent,
        }
    }
}

fn is_file_modifying_tool(tool_name: &str) -> (r: bool)
    ensures
        r == modifying_tool(tool_name@),
{
    str_eq(tool_name, "Edit") || str_eq(tool_name, "Write") || str_eq(tool_name, "NotebookEdit")
        || str_eq(tool_name, "Bash")
}

fn evidence_kind_for_tool(tool_name: &str) -> (r: EvidenceKind)
    ensures
        r == evidence_for_tool(tool_name@),
{
    if str_eq(tool_name, "Edit") || str_eq(tool_name, "NotebookEdit") {
        EvidenceKind::DirectEdit
    } else if str_eq(tool_name, "Write") {
        EvidenceKind::DirectWrite
    } else if str_eq(tool_name, "Bash") {
        EvidenceKind::BashCorrelation
    } else {
        EvidenceKind::MissingFinalState
    }
}

fn base_confidence_for_tool(tool_name: &str) -> (r: u8)
    ensures
        r == base_confidence(tool_name@),
{
    if str_eq(tool_name, "Edit") || str_eq(tool_name, "Write") || str_eq(tool_name, "NotebookEdit") {
        100
    } else if str_eq(tool_name, "Bash") {
        60
    } else {
        30
    }
}

fn content_ref_text(c: &Option<ContentRef>) -> (r: Option<String>)
    ensures
        text_opt(r) == content_text(*c),
{
    match c {
        Some(ContentRef::Inline(t)) => Some(t.clone()),
        _ => None,
    }
}

fn opt_is(s: &Option<String>, id: &[char]) -> (r: bool)
    ensures
        r == (text_opt(*s) == Some(id@)),
{
    match s {
        Some(t) => {
            let tc = chars_of(t.as_str());
            chars_eq(tc.as_slice(), id)
        },
        None => false,
    }
}

/// Whether an event of kind `kind` names tool call `id`.
fn any_event_names(events: &[ParsedEvent], kind: ParseKind, id: &[char]) -> (r: bool)
    ensures
        r == exists|k: int|
            0 <= k < events.len() && #[trigger] events@[k].kind == kind && text_opt(events@[k].tool_ref)
                == Some(id@),
{
    let mut k: usize = 0;
    while k < events.len()
        invariant
            k <= events.len(),
            forall|j: int|
                0 <= j < k ==> !(#[trigger] events@[j].kind == kind && text_opt(events@[j].tool_ref)
                    == Some(id@)),
        decreases events.len() - k,
    {
        if events[k].kind == kind && opt_is(&events[k].tool_ref, id) {
            return true;
        }
        k = k + 1;
    }
    false
}

fn path_is(row: &FileTimelineRow, path: &[char]) -> (r: bool)
    ensures
        r == (row.file_path@ == path@),
{
    let rc = chars_of(row.file_path.as_str());
    chars_eq(rc.as_slice(), path)
}

fn row_picked(rows: &[FileTimelineRow], path: &[char], pick: &RowSelect, i: usize) -> (r: bool)
    requires
        i < rows.len(),
    ensures
        r == picks(rows@, path@, pick@, i as int),
{
    if !path_is(&rows[i], path) {
        return false;
    }
    match pick {
        RowSelect::Before(seq) => rows[i].event_seq < *seq,
        RowSelect::Trigger(id) => opt_is(&rows[i].trigger_event_ref, id.as_slice()),
        RowSelect::WithContent => rows[i].content.is_some(),
    }
}

proof fn lemma_is_last_unique(rows: Seq<FileTimelineRow>, path: Seq<char>, pick: RowPick, i: int)
    requires
        is_last(rows, path, pick, i),
    ensures
        (choose|j: int| is_last(rows, path, pick, j)) == i,
        last_content(rows, path, pick) == text_opt(rows[i].content),
{
    let j = choose|j: int| is_last(rows, path, pick, j);
    assert(is_last(rows, path, pick, j));
    if j != i {
        assert(after_in_order(rows, j, i));
        assert(after_in_order(rows, i, j));
    }
}

/// The last row, in timeline order, that `pick` considers.
fn find_last_row(rows: &[FileTimelineRow], path: &[char], pick: &RowSelect) -> (r: Option<usize>)
    ensures
        match r {
            Some(i) => is_last(rows@, path@, pick@, i as int),
            None => forall|j: int| !picks(rows@, path@, pick@, j),
        },
{
    let mut found = false;
    let mut b: usize = 0;
    let mut k: usize = 0;
    while k < rows.len()
        invariant
            k <= rows.len(),
            !found ==> forall|j: int| 0 <= j < k ==> !picks(rows@, path@, pick@, j),
            found ==> b < k && picks(rows@, path@, pick@, b as int),
            found ==> forall|j: int|
                0 <= j < k && j != b && picks(rows@, path@, pick@, j) ==> after_in_order(
                    rows@,
                    j,
                    b as int,
                ),
        decreases rows.len() - k,
    {
        let ghost old_b = b;
        let ghost old_found = found;
        if row_picked(rows, path, pick, k) {
            if !found || rows[b].seq <= rows[k].seq {
                found = true;
                b = k;
            }
        }
        proof {
            if found {
                assert forall|j: int|
                    0 <= j < k + 1 && j != b && picks(rows@, path@, pick@, j) implies after_in_order(
                    rows@,
                    j,
                    b as int,
                ) by {
                    if old_found && j != old_b && j < k {
                        assert(after_in_order(rows@, j, old_b as int));
                    }
                }
            }
        }
        k = k + 1;
    }
    if found {
        Some(b)
    } else {
        None
    }
}

/// The first row of an event after `seq` (smallest event seq, ties in timeline order).
fn find_first_after(rows: &[FileTimelineRow], path: &[char], seq: usize) -> (r: Option<usize>)
    ensures
        match r {
            Some(i) => is_first_after(rows@, path@, seq, i as int),
            None => forall|j: int| !row_after(rows@, path@, seq, j),
        },
{
    let mut found = false;
    let mut b: usize = 0;
    let mut k: usize = 0;
    while k < rows.len()
        invariant
            k <= rows.len(),
            !found ==> forall|j: int| 0 <= j < k ==> !row_after(rows@, path@, seq, j),
            found ==> b < k && row_after(rows@, path@, seq, b as int),
            found ==> forall|j: int|
                0 <= j < k && j != b && #[trigger] row_after(rows@, path@, seq, j) ==> sooner(
                    rows@,
                    b as int,
                    j,
                ),
        decreases rows.len() - k,
    {
        let ghost old_b = b;
        let ghost old_found = found;
        if path_is(&rows[k], path) && rows[k].event_seq > seq {
            if !found || rows[k].event_seq < rows[b].event_seq || (rows[k].event_seq
                == rows[b].event_seq && rows[k].seq < rows[b].seq) {
                found = true;
                b = k;
            }
        }
        proof {
            if found {
                assert forall|j: int|
                    0 <= j < k + 1 && j != b && #[trigger] row_after(rows@, path@, seq, j) implies sooner(
                    rows@,
                    b as int,
                    j,
                ) by {
                    if old_found && j != old_b && j < k {
                        assert(sooner(rows@, old_b as int, j));
                    }
                }
            }
        }
        k = k + 1;
    }
    if found {
        Some(b)
    } else {
        None
    }
}

/// The content of the last row `pick` considers.
fn last_row_content(rows: &[FileTimelineRow], path: &[char], pick: &RowSelect) -> (r: Option<String>)
    ensures
        text_opt(r) == last_content(rows@, path@, pick@),
{
    match find_last_row(rows, path, pick) {
        Some(i) => {
            proof {
                lemma_is_last_unique(rows@, path@, pick@, i as int);
            }
            copy_text(&rows[i].content)
        },
        None => None,
    }
}

fn copy_text(s: &Option<String>) -> (r: Option<String>)
    ensures
        text_opt(r) == text_opt(*s),
{
    match s {
        Some(t) => Some(t.clone()),
        None => None,
    }
}

fn has_rows_for(rows: &[FileTimelineRow], path: &[char]) -> (r: bool)
    ensures
        r == has_timeline(rows@, path@),
{
    let mut k: usize = 0;
    while k < rows.len()
        invariant
            k <= rows.len(),
            forall|j: int| 0 <= j < k ==> !(#[trigger] rows@[j].file_path@ == path@),
        decreases rows.len() - k,
    {
        if path_is(&rows[k], path) {
            return true;
        }
        k = k + 1;
    }
    false
}

fn post_apply_content(
    tool_name: &str,
    tool_use_id: &[char],
    proposal_seq: usize,
    rows: &[FileTimelineRow],
    path: &[char],
) -> (r: Option<String>)
    ensures
        text_opt(r) == post_apply(tool_name@, tool_use_id@, proposal_seq, rows@, path@),
{
    let mut id: Vec<char> = Vec::new();
    crate::text::push_all(&mut id, tool_use_id);
    let pick = RowSelect::Trigger(id);
    match find_last_row(rows, path, &pick) {
        Some(i) => {
            proof {
                lemma_is_last_unique(rows@, path@, pick@, i as int);
            }
            return copy_text(&rows[i].content);
        },
        None => {},
    }
    if !str_eq(tool_name, "Bash") {
        return None;
    }
    match find_first_after(rows, path, proposal_seq) {
        Some(i) => {
            proof {
                let j = choose|j: int| is_first_after(rows@, path@, proposal_seq, j);
                if j != i {
                    assert(is_first_after(rows@, path@, proposal_seq, j));
                    assert(sooner(rows@, i as int, j));
                    assert(sooner(rows@, j, i as int));
                }
            }
            copy_text(&rows[i].content)
        },
        None => None,
    }
}

fn classify_present_at_session_end(
    tool_name: &str,
    file_path: Option<&str>,
    tool_use_id: &[char],
    proposal_seq: usize,
    rows: &[FileTimelineRow],
    events: &[ParsedEvent],
) -> (r: (PreferenceOutcome, u8, EvidenceKind))
    ensures
        r == classify_spec(
            tool_name@,
            match file_path {
                Some(p) => Some(p@),
                None => None,
            },
            tool_use_id@,
            proposal_seq,
            rows@,
            events@,
        ),
{
    let evidence_kind = evidence_kind_for_tool(tool_name);
    let base = base_confidence_for_tool(tool_name);
    let file_path = match file_path {
        Some(p) => p,
        None => {
            return (PreferenceOutcome::Rejected, 20, EvidenceKind::MissingFinalState);
        },
    };
    let path = chars_of(file_path);
    if !has_rows_for(rows, path.as_slice()) {
        if str_eq(tool_name, "Write") && any_event_names(events, ParseKind::ToolResult, tool_use_id) {
            return (PreferenceOutcome::Accepted, 40, EvidenceKind::MissingFinalState);
        }
        return (PreferenceOutcome::Rejected, 30, EvidenceKind::MissingFinalState);
    }
    let before = last_row_content(rows, path.as_slice(), &RowSelect::Before(proposal_seq));
    let post = post_apply_content(tool_name, tool_use_id, proposal_seq, rows, path.as_slice());
    let fin = last_row_content(rows, path.as_slice(), &RowSelect::WithContent);
    match (post, fin) {
        (None, _) => (PreferenceOutcome::Rejected, base, evidence_kind),
        (Some(post), Some(fin)) => {
            let before_text = match before {
                Some(b) => b,
                None => String::new(),
            };
            if effect_present(before_text.as_str(), post.as_str(), fin.as_str()) {
                (PreferenceOutcome::Accepted, base, evidence_kind)
            } else if partial_effect_present(before_text.as_str(), post.as_str(), fin.as_str()) {
                let half = base / 2;
                (PreferenceOutcome::Edited, if half > 20 { half } else { 20 }, evidence_kind)
            } else {
                (PreferenceOutcome::Rejected, base, evidence_kind)
            }
        },
        (Some(_), None) => (PreferenceOutcome::Rejected, 30, EvidenceKind::MissingFinalState),
    }
}


proof fn lemma_last_target_word_unique(s: Seq<char>, a: int, b: int)
    requires
        last_target_word(s, a, b),
    ensures
        (choose|x: int, y: int| last_target_word(s, x, y)) == (a, b),
{
    let (x, y) = choose|x: int, y: int| last_target_word(s, x, y);
    assert(last_target_word(s, x, y));
    assert(x <= a);
    assert(a <= x);
    if y < b {
        assert(!is_ws(s[y]));
    } else if y > b {
        assert(!is_ws(s[b]));
    }
}

fn has_char(w: &[char], c: char) -> (r: bool)
    ensures
        r == w@.contains(c),
{
    let mut k: usize = 0;
    while k < w.len()
        invariant
            k <= w.len(),
            forall|j: int| 0 <= j < k ==> w@[j] != c,
        decreases w.len() - k,
    {
        if w[k] == c {
            proof {
                assert(w@[k as int] == c);
            }
            return true;
        }
        k = k + 1;
    }
    false
}

fn is_quote_or_redirect(c: char) -> (r: bool)
    ensures
        r == quote_or_redirect(c),
{
    c == '>' || c == '"' || c == '\''
}

fn trim_quotes(w: &[char]) -> (out: Vec<char>)
    ensures
        out@ == strip_trailing_quotes(strip_leading_quotes(w@)),
{
    let mut a: usize = 0;
    proof {
        assert(w@.skip(0) =~= w@);
    }
    while a < w.len() && is_quote_or_redirect(w[a])
        invariant
            a <= w.len(),
            strip_leading_quotes(w@) == strip_leading_quotes(w@.skip(a as int)),
        decreases w.len() - a,
    {
        proof {
            assert(w@.skip(a as int).drop_first() =~= w@.skip(a + 1));
        }
        a = a + 1;
    }
    proof {
        assert(strip_leading_quotes(w@.skip(a as int)) == w@.skip(a as int));
    }
    let mut b: usize = w.len();
    let ghost lead = w@.skip(a as int);
    proof {
        assert(w@.subrange(a as int, b as int) =~= lead);
    }
    while b > a && is_quote_or_redirect(w[b - 1])
        invariant
            a <= b <= w.len(),
            lead == w@.skip(a as int),
            strip_trailing_quotes(lead) == strip_trailing_quotes(w@.subrange(a as int, b as int)),
        decreases b,
    {
        proof {
            assert(w@.subrange(a as int, b as int).drop_last() =~= w@.subrange(a as int, b - 1));
        }
        b = b - 1;
    }
    slice_chars(w, a, b)
}

/// The file a shell command most likely wrote (see `bash_target_spec`).
pub fn infer_bash_target_file(command: Option<&str>, cwd: Option<&str>) -> (r: Option<String>)
    ensures
        text_opt(r) == bash_target_spec(
            match command {
                Some(c) => Some(c@),
                None => None,
            },
            match cwd {
                Some(c) => Some(c@),
                None => None,
            },
        ),
{
    let ghost cw = match cwd {
        Some(c) => Some(c@),
        None => None,
    };
    let c = match command {
        Some(c) => c,
        None => {
            return None;
        },
    };
    let cs = chars_of(c);
    let n = cs.len();
    let mut k: usize = n;
    let ext_rs = chars_of(".rs");
    let ext_ts = chars_of(".ts");
    loop
        invariant
            k <= n == cs.len(),
            cs@ == c@,
            command == Some(c),
            cw == match cwd {
                Some(c) => Some(c@),
                None => None,
            },
            ext_rs@ == ".rs"@,
            ext_ts@ == ".ts"@,
            k == n || k == 0 || is_ws(cs@[k - 1]),
            forall|a2: int, b2: int|
                a2 >= k && word_at(cs@, a2, b2) ==> !target_like(#[trigger] cs@.subrange(a2, b2)),
        decreases k,
    {
        let ghost k0 = k;
        let mut b = k;
        while b > 0 && is_whitespace(cs[b - 1])
            invariant
                b <= k <= n == cs.len(),
                forall|j: int| b <= j < k ==> is_ws(cs@[j]),
            decreases b,
        {
            b = b - 1;
        }
        if b == 0 {
            proof {
                assert forall|a2: int, b2: int| word_at(cs@, a2, b2) implies !target_like(
                    #[trigger] cs@.subrange(a2, b2),
                ) by {
                    if a2 < k0 {
                        assert(!is_ws(cs@[a2]));
                    }
                }
                assert(!exists|x: int, y: int| last_target_word(c@, x, y));
                assert(command == Some(c));
                assert(bash_target_spec(Some(c@), cw) is None);
            }
            return None;
        }
        let mut a = b;
        while a > 0 && !is_whitespace(cs[a - 1])
            invariant
                a <= b <= n == cs.len(),
                b > 0,
                forall|j: int| a <= j < b ==> !is_ws(cs@[j]),
            decreases a,
        {
            a = a - 1;
        }
        proof {
            assert(!is_ws(cs@[b - 1]));
            if a == b {
                assert(false);
            }
            assert(word_at(cs@, a as int, b as int));
            assert forall|a2: int, b2: int|
                a2 > a && word_at(cs@, a2, b2) implies !target_like(#[trigger] cs@.subrange(a2, b2)) by {
                if a2 < b {
                    assert(!is_ws(cs@[a2 - 1]));
                } else if a2 < k0 {
                    assert(is_ws(cs@[a2]));
                }
            }
        }
        let word = slice_chars(cs.as_slice(), a, b);
        if has_char(word.as_slice(), '/') || has_suffix(word.as_slice(), ext_rs.as_slice())
            || has_suffix(word.as_slice(), ext_ts.as_slice()) {
            proof {
                assert(last_target_word(c@, a as int, b as int));
                lemma_last_target_word_unique(c@, a as int, b as int);
                assert(word@ == c@.subrange(a as int, b as int));
            }
            let token = trim_quotes(word.as_slice());
            if token.len() == 0 {
                proof {
                    assert(command == Some(c));
                    assert(bash_target_spec(Some(c@), cw) is None);
                }
                return None;
            }
            let t = string_from_chars(token.as_slice());
            let r = normalize_file_path(t.as_str(), cwd);
            proof {
                assert(command == Some(c));
                assert(exists|x: int, y: int| last_target_word(c@, x, y));
                let pair = choose|x: int, y: int| last_target_word(c@, x, y);
                assert(pair == (a as int, b as int));
                assert(strip_trailing_quotes(strip_leading_quotes(c@.subrange(pair.0, pair.1))) == token@);
                assert(bash_target_spec(Some(c@), cw) == Some(normalize_spec(token@, cw)));
            }
            return Some(r);
        }
        k = a;
    }
}

impl PreferenceCompiler {
    /// Labels every file-modifying proposal (Edit, Write, NotebookEdit, Bash)
    /// that names its tool call: denied ones are rejected outright; the others
    /// by whether the change they made survives in the file's last recorded
    /// state. Examples are numbered in proposal order.
    pub fn compile(
        source: &str,
        source_session_id: &str,
        cwd: Option<&str>,
        events: &[ParsedEvent],
        timeline_rows: &[FileTimelineRow],
    ) -> (out: Vec<PreferenceExample>)
        ensures
            example_views(out@) == compile_spec(
                source@,
                source_session_id@,
                match cwd {
                    Some(c) => Some(c@),
                    None => None,
                },
                events@,
                timeline_rows@,
                events@,
            ),
    {
        let ghost cw = match cwd {
            Some(c) => Some(c@),
            None => None,
        };
        let mut examples: Vec<PreferenceExample> = Vec::new();
        let mut i: usize = 0;
        while i < events.len()
            invariant
                i <= events.len(),
                cw == match cwd {
                    Some(c) => Some(c@),
                    None => None,
                },
                example_views(examples@) == compile_spec(
                    source@,
                    source_session_id@,
                    cw,
                    events@,
                    timeline_rows@,
                    events@.take(i as int),
                ),
            decreases events.len() - i,
        {
            let event = &events[i];
            proof {
                assert(events@.take(i + 1).drop_last() =~= events@.take(i as int));
                assert(events@.take(i + 1).last() == events@[i as int]);
            }
            let is_proposal = match event.kind {
                ParseKind::ToolProposal => true,
                _ => false,
            };
            let fields = match (&event.tool_name, &event.tool_ref) {
                (Some(n), Some(r)) => Some((n, r)),
                _ => None,
            };
            if is_proposal && fields.is_some() && is_file_modifying_tool(
                fields.unwrap().0.as_str(),
            ) {
                let (tool_name, tool_ref) = fields.unwrap();
                let tool_use_id = chars_of(tool_ref.as_str());
                let proposal_content = content_ref_text(&event.content_or_ref);
                let file_path = match &event.file_path {
                    Some(p) => Some(normalize_file_path(p.as_str(), cwd)),
                    None => infer_bash_target_file(
                        match &proposal_content {
                            Some(t) => Some(t.as_str()),
                            None => None,
                        },
                        cwd,
                    ),
                };
                let fp = match &file_path {
                    Some(p) => Some(p.as_str()),
                    None => None,
                };
                let (outcome, confidence, evidence_kind) = if any_event_names(
                    events,
                    ParseKind::PermissionDenial,
                    tool_use_id.as_slice(),
                ) {
                    (PreferenceOutcome::Rejected, 100u8, EvidenceKind::PermissionDenial)
                } else {
                    classify_present_at_session_end(
                        tool_name.as_str(),
                        fp,
                        tool_use_id.as_slice(),
                        event.seq,
                        timeline_rows,
                        events,
                    )
                };
                let context = match fp {
                    Some(p) => {
                        let pc = chars_of(p);
                        last_row_content(timeline_rows, pc.as_slice(), &RowSelect::Before(event.seq))
                    },
                    None => None,
                };
                let example = PreferenceExample {
                    source: owned(source),
                    source_session_id: owned(source_session_id),
                    generation: examples.len(),
                    proposal_event_seq: event.seq,
                    tool_use_id: tool_ref.clone(),
                    file_path,
                    tool_name: tool_name.clone(),
                    proposal_content,
                    context,
                    outcome,
                    confidence,
                    evidence_kind,
                    extractor_version: owned(EXTRACTOR_VERSION),
                };
                let ghost before = examples@;
                examples.push(example);
                proof {
                    assert(example_views(examples@) =~= example_views(before).push(example@));
                }
            }
            i = i + 1;
        }
        proof {
            assert(events@.take(events.len() as int) =~= events@);
        }
        examples
    }
}

} // verus!

//! The decisions of one ingest pass over a transcript file, before and after
//! its bytes are read: whether the file must be read at all, which session it
//! belongs to, and which of its committed lines become events.
use vstd::prelude::*;

use crate::error::JottraceError;
use crate::ingest::{line_number_at, newline_count, StoredSession};
use crate::session_meta::{
    capture_metadata, captured, event_timestamp, event_timestamp_spec, EventHeader, MetadataView,
    ParsedMetadata,
};
use crate::source_events::{is_empty_source_file_placeholder, is_placeholder, path_matches, stored_session_path_matches};
use crate::text::{opt_view, owned, str_eq};

verus! {

// ---------------------------------------------------------------------------
// Before reading
// ---------------------------------------------------------------------------
/// The stored row says the file is unchanged: same size, a known and equal
/// modification time, and a recorded content fingerprint.
pub open spec fn unchanged_by_mtime_spec(s: StoredSession, pass_size: i64, file_mtime: Option<i64>) -> bool {
    s.file_size == Some(pass_size) && file_mtime is Some && s.file_mtime == file_mtime
        && s.content_fingerprint is Some
}

pub fn unchanged_by_mtime(stored: &StoredSession, pass_size: i64, file_mtime: Option<i64>) -> (r: bool)
    ensures
        r == unchanged_by_mtime_spec(*stored, pass_size, file_mtime),
{
    stored.file_size == Some(pass_size) && file_mtime.is_some() && stored.file_mtime == file_mtime
        && stored.content_fingerprint.is_some()
}

/// The stored row has the same path, parent link and source metadata.
pub open spec fn linked_matches(
    s: StoredSession,
    path: Seq<char>,
    parent_session_id: Option<i64>,
    source_metadata: Option<Seq<char>>,
) -> bool {
    path_matches(s, path) && s.parent_session_id == parent_session_id && opt_view(
        s.source_metadata,
    ) == source_metadata
}

fn opt_str_eq(a: &Option<String>, b: Option<&str>) -> (r: bool)
    ensures
        r == (opt_view(*a) == match b {
            Some(s) => Some(s@),
            None => None::<Seq<char>>,
        }),
{
    match (a, b) {
        (Some(x), Some(y)) => str_eq(x.as_str(), y),
        (None, None) => true,
        _ => false,
    }
}

pub fn stored_jsonl_linked_session_matches(
    stored: &StoredSession,
    path: &str,
    parent_session_id: Option<i64>,
    source_metadata: Option<&str>,
) -> (r: bool)
    ensures
        r == linked_matches(
            *stored,
            path@,
            parent_session_id,
            match source_metadata {
                Some(s) => Some(s@),
                None => None,
            },
        ),
{
    stored_session_path_matches(stored, path) && stored.parent_session_id == parent_session_id
        && opt_str_eq(&stored.source_metadata, source_metadata)
}

/// What a pass over a JSONL or chat file does before reading it.
#[derive(Debug, Clone, Copy, PartialEq, Eq, Structural)]
pub enum PreReadStep {
    /// Unchanged and with the same links: nothing to do.
    UpToDate,
    /// Unchanged, but its path, parent link or metadata changed: refresh those.
    Refresh,
    /// Read the file.
    Read,
}

/// Skip reading an unchanged file unless an unresolved invalid line asks for a retry.
pub open spec fn pre_read_step_spec(
    stored: Option<StoredSession>,
    retry_unresolved_invalid_json: bool,
    pass_size: i64,
    file_mtime: Option<i64>,
    path: Seq<char>,
    parent_session_id: Option<i64>,
    source_metadata: Option<Seq<char>>,
) -> PreReadStep {
    match stored {
        Some(s) => if !retry_unresolved_invalid_json && unchanged_by_mtime_spec(
            s,
            pass_size,
            file_mtime,
        ) {
            if linked_matches(s, path, parent_session_id, source_metadata) {
                PreReadStep::UpToDate
            } else {
                PreReadStep::Refresh
            }
        } else {
            PreReadStep::Read
        },
        None => PreReadStep::Read,
    }
}

pub fn pre_read_step(
    stored: &Option<StoredSession>,
    retry_unresolved_invalid_json: bool,
    pass_size: i64,
    file_mtime: Option<i64>,
    path: &str,
    parent_session_id: Option<i64>,
    source_metadata: Option<&str>,
) -> (r: PreReadStep)
    ensures
        r == pre_read_step_spec(
            *stored,
            retry_unresolved_invalid_json,
            pass_size,
            file_mtime,
            path@,
            parent_session_id,
            match source_metadata {
                Some(s) => Some(s@),
                None => None,
            },
        ),
{
    match stored {
        Some(s) => {
            if !retry_unresolved_invalid_json && unchanged_by_mtime(s, pass_size, file_mtime) {
                if stored_jsonl_linked_session_matches(s, path, parent_session_id, source_metadata) {
                    PreReadStep::UpToDate
                } else {
                    PreReadStep::Refresh
                }
            } else {
                PreReadStep::Read
            }
        },
        None => PreReadStep::Read,
    }
}

/// An unchanged file with unchanged links is never read again.
pub proof fn lemma_unchanged_file_is_not_read(
    s: StoredSession,
    pass_size: i64,
    file_mtime: Option<i64>,
    path: Seq<char>,
    parent_session_id: Option<i64>,
    source_metadata: Option<Seq<char>>,
)
    requires
        unchanged_by_mtime_spec(s, pass_size, file_mtime),
        linked_matches(s, path, parent_session_id, source_metadata),
    ensures
        pre_read_step_spec(
            Some(s),
            false,
            pass_size,
            file_mtime,
            path,
            parent_session_id,
            source_metadata,
        ) == PreReadStep::UpToDate,
{
}

// ---------------------------------------------------------------------------
// Which session a file belongs to
// ---------------------------------------------------------------------------
/// Where a file's session id comes from.
#[derive(Debug, Clone, Copy, PartialEq, Eq, Structural)]
pub enum SourceSessionIdKind {
    /// Known from the path alone.
    Known,
    /// The first line of a local-agent audit.
    ClaudeLocalAgentAudit,
    /// The `session_meta` first line of a Codex session.
    CodexSessionMeta,
    /// The `sessionId` of a Gemini chat file.
    GeminiChatJson,
    /// The `session_start` first line of a Factory session.
    FactorySessionStart,
    /// The `session` first line of a Pi agent session.
    PiAgentSessionHeader,
}

/// How a file's session id is settled.
#[derive(Debug, Clone, PartialEq, Eq)]
pub enum IdentityStep {
    /// The id the file was discovered with stands.
    Keep,
    /// The file is unchanged since it was stored under this id: reuse it.
    Reuse(String),
    /// Read the id from the file's header.
    ReadHeader,
}

pub open spec fn identity_step_spec(
    kind: SourceSessionIdKind,
    stored_by_path: Option<StoredSession>,
    pass_size: i64,
    file_mtime: Option<i64>,
) -> IdentityStep {
    if kind == SourceSessionIdKind::Known {
        IdentityStep::Keep
    } else {
        match stored_by_path {
            Some(s) => if unchanged_by_mtime_spec(s, pass_size, file_mtime) {
                IdentityStep::Reuse(s.source_session_id)
            } else {
                IdentityStep::ReadHeader
            },
            None => IdentityStep::ReadHeader,
        }
    }
}

pub open spec fn identity_view(step: IdentityStep) -> Option<Option<Seq<char>>> {
    match step {
        IdentityStep::Keep => None,
        IdentityStep::Reuse(id) => Some(Some(id@)),
        IdentityStep::ReadHeader => Some(None),
    }
}

/// Decides how a file's session id is settled (see `identity_step_spec`).
pub fn identity_step(
    kind: SourceSessionIdKind,
    stored_by_path: &Option<StoredSession>,
    pass_size: i64,
    file_mtime: Option<i64>,
) -> (r: IdentityStep)
    ensures
        identity_view(r) == identity_view(
            identity_step_spec(kind, *stored_by_path, pass_size, file_mtime),
        ),
{
    if kind == SourceSessionIdKind::Known {
        return IdentityStep::Keep;
    }
    match stored_by_path {
        Some(s) => if unchanged_by_mtime(s, pass_size, file_mtime) {
            IdentityStep::Reuse(owned(s.source_session_id.as_str()))
        } else {
            IdentityStep::ReadHeader
        },
        None => IdentityStep::ReadHeader,
    }
}

/// For an empty Codex file: the session id of the row stored for its path,
/// unless there is none or it is an empty placeholder (then the file is skipped).
pub fn empty_codex_file_session(stored_by_path: &Option<StoredSession>) -> (r: Option<String>)
    ensures
        match stored_by_path {
            Some(s) => if is_placeholder(*s) {
                r is None
            } else {
                r is Some && r->0@ == s.source_session_id@
            },
            None => r is None,
        },
{
    match stored_by_path {
        Some(s) => if is_empty_source_file_placeholder(s) {
            None
        } else {
            Some(owned(s.source_session_id.as_str()))
        },
        None => None,
    }
}

// ---------------------------------------------------------------------------
// Committed lines
// ---------------------------------------------------------------------------
/// `spans` are the lines of `buffer[start..end]`, in order, each without its
/// newline: every span ends at the first newline after its start, and the next
/// span starts just after it.
pub open spec fn line_spans(buffer: Seq<u8>, start: int, end: int, spans: Seq<(usize, usize)>) -> bool {
    &&& 0 <= start <= end <= buffer.len()
    &&& spans.len() == 0 <==> start == end
    &&& spans.len() > 0 ==> spans[0].0 == start && spans.last().1 + 1 == end
    &&& forall|k: int|
        0 <= k < spans.len() ==> {
            let (s, e) = #[trigger] spans[k];
            &&& start <= s <= e < end
            &&& buffer[e as int] == 10u8
            &&& forall|j: int| s <= j < e ==> buffer[j] != 10u8
        }
    &&& forall|k: int| 1 <= k < spans.len() ==> (#[trigger] spans[k]).0 == spans[k - 1].1 + 1
}

/// The lines of the committed range `buffer[start..end]`, which ends in a newline.
pub fn committed_line_spans(buffer: &[u8], start: usize, end: usize) -> (spans: Vec<(usize, usize)>)
    requires
        start <= end <= buffer.len(),
        start < end ==> buffer@[end - 1] == 10u8,
    ensures
        line_spans(buffer@, start as int, end as int, spans@),
{
    let mut spans: Vec<(usize, usize)> = Vec::new();
    let mut at = start;
    while at < end
        invariant
            start <= at <= end <= buffer.len(),
            start < end ==> buffer@[end - 1] == 10u8,
            spans.len() == 0 <==> at == start,
            spans.len() > 0 ==> spans@[0].0 == start && spans@.last().1 + 1 == at,
            forall|k: int|
                0 <= k < spans.len() ==> {
                    let (s, e) = #[trigger] spans@[k];
                    &&& start <= s <= e < at
                    &&& buffer@[e as int] == 10u8
                    &&& forall|j: int| s <= j < e ==> buffer@[j] != 10u8
                },
            forall|k: int| 1 <= k < spans.len() ==> (#[trigger] spans@[k]).0 == spans@[k - 1].1 + 1,
        decreases end - at,
    {
        let e = crate::ingest::next_line_end(buffer, at, end);
        let ghost prev = spans@;
        spans.push((at, e));
        proof {
            assert forall|k: int| 1 <= k < spans.len() implies (#[trigger] spans@[k]).0
                == spans@[k - 1].1 + 1 by {
                if k == spans.len() - 1 {
                    assert(spans@[k - 1] == prev.last());
                } else {
                    assert(spans@[k] == prev[k]);
                    assert(spans@[k - 1] == prev[k - 1]);
                }
            }
        }
        at = e + 1;
    }
    spans
}

/// A line that did not decode: where it starts, its one-based line number, and
/// the decoder's message.
#[derive(Debug, Clone, PartialEq, Eq)]
pub struct InvalidLine {
    pub byte_offset: i64,
    pub line_number: i64,
    pub message: String,
}

/// One line to store as an event: its sequence number, timestamp and bytes.
#[derive(Debug, Clone, PartialEq, Eq)]
pub struct EventLine {
    pub seq: i64,
    pub ts: Option<String>,
    pub start: usize,
    pub end: usize,
}

/// What importing the committed lines of a pass does.
#[derive(Debug, Clone, PartialEq, Eq)]
pub struct LineImport {
    pub events: Vec<EventLine>,
    /// Just past the last line stored; the start offset when none was.
    pub next_read_offset: i64,
    pub metadata: ParsedMetadata,
    /// The first line that did not decode; nothing after it is imported.
    pub invalid: Option<InvalidLine>,
}

/// The number of leading headers that decoded.
pub open spec fn decoded_prefix(headers: Seq<Result<EventHeader, String>>) -> int
    decreases headers.len(),
{
    if headers.len() == 0 {
        0
    } else if decoded_prefix(headers.drop_last()) < headers.len() - 1 {
        decoded_prefix(headers.drop_last())
    } else if headers.last() is Ok {
        headers.len() as int
    } else {
        headers.len() - 1
    }
}

/// The metadata gathered from the first `n` headers, all decoded.
pub open spec fn metadata_of(source: Seq<char>, headers: Seq<Result<EventHeader, String>>, n: int) -> MetadataView
    decreases n,
{
    if n <= 0 {
        MetadataView { cwd: None, started_at: None, ended_at: None }
    } else {
        captured(metadata_of(source, headers, n - 1), source, headers[n - 1]->Ok_0)
    }
}

/// The import of lines `spans` with decoded `headers`, the first line being
/// line `first_seq` (zero-based): every line up to the first that did not
/// decode becomes an event, numbered from `first_seq`, with its own timestamp.
pub open spec fn line_import_ok(
    source: Seq<char>,
    start: int,
    first_seq: int,
    spans: Seq<(usize, usize)>,
    headers: Seq<Result<EventHeader, String>>,
    r: LineImport,
) -> bool {
    let n = decoded_prefix(headers);
    &&& r.events.len() == n
    &&& forall|k: int|
        0 <= k < n ==> {
            let ev = #[trigger] r.events@[k];
            &&& ev.seq == first_seq + k
            &&& opt_view(ev.ts) == event_timestamp_spec(source, headers[k]->Ok_0)
            &&& ev.start == spans[k].0
            &&& ev.end == spans[k].1
        }
    &&& r.next_read_offset == if n == 0 {
        start
    } else {
        spans[n - 1].1 + 1
    }
    &&& r.metadata@ == metadata_of(source, headers, n)
    &&& match r.invalid {
        Some(bad) => n < headers.len() && bad.byte_offset == spans[n].0 && bad.line_number
            == first_seq + n + 1 && headers[n] is Err && bad.message@ == headers[n]->Err_0@,
        None => n == headers.len(),
    }
}

proof fn lemma_decoded_prefix_step(headers: Seq<Result<EventHeader, String>>, i: int)
    requires
        0 <= i < headers.len(),
        forall|k: int| 0 <= k < i ==> headers[k] is Ok,
    ensures
        decoded_prefix(headers.take(i)) == i,
        headers[i] is Ok ==> decoded_prefix(headers.take(i + 1)) == i + 1,
        headers[i] is Err ==> decoded_prefix(headers) == i,
    decreases headers.len() - i,
{
    lemma_decoded_prefix_all_ok(headers.take(i));
    assert(headers.take(i + 1).drop_last() =~= headers.take(i));
    if headers[i] is Ok {
        lemma_decoded_prefix_all_ok(headers.take(i + 1));
    } else {
        lemma_decoded_prefix_stays(headers, i + 1);
    }
}

proof fn lemma_decoded_prefix_all_ok(h: Seq<Result<EventHeader, String>>)
    requires
        forall|k: int| 0 <= k < h.len() ==> h[k] is Ok,
    ensures
        decoded_prefix(h) == h.len(),
    decreases h.len(),
{
    if h.len() > 0 {
        lemma_decoded_prefix_all_ok(h.drop_last());
    }
}

/// Once a header failed, the decoded prefix no longer grows.
proof fn lemma_decoded_prefix_stays(h: Seq<Result<EventHeader, String>>, m: int)
    requires
        1 <= m <= h.len(),
        forall|k: int| 0 <= k < m - 1 ==> h[k] is Ok,
        h[m - 1] is Err,
    ensures
        decoded_prefix(h.take(m)) == m - 1,
        decoded_prefix(h) == m - 1,
    decreases h.len() - m,
{
    lemma_decoded_prefix_all_ok(h.take(m - 1));
    assert(h.take(m).drop_last() =~= h.take(m - 1));
    if m < h.len() {
        lemma_decoded_prefix_grow(h, m, m - 1);
    } else {
        assert(h.take(m) =~= h);
    }
}

proof fn lemma_decoded_prefix_grow(h: Seq<Result<EventHeader, String>>, m: int, v: int)
    requires
        1 <= m <= h.len(),
        v < m,
        decoded_prefix(h.take(m)) == v,
    ensures
        decoded_prefix(h) == v,
    decreases h.len() - m,
{
    if m < h.len() {
        assert(h.take(m + 1).drop_last() =~= h.take(m));
        assert(h.take(m + 1).len() == m + 1);
        assert(decoded_prefix(h.take(m + 1)) == v);
        lemma_decoded_prefix_grow(h, m + 1, v);
    } else {
        assert(h.take(m) =~= h);
    }
}

fn copy_header_message(h: &Result<EventHeader, String>) -> (r: String)
    requires
        h is Err,
    ensures
        r@ == h->Err_0@,
{
    match h {
        Err(m) => owned(m.as_str()),
        Ok(_) => owned(""),
    }
}

/// Plans the import of the committed lines `spans` of `buffer`, given each
/// line's decoded header (see `line_import_ok`).
pub fn plan_line_import(
    source: &str,
    buffer: &[u8],
    start_offset: usize,
    committed_len: usize,
    spans: &[(usize, usize)],
    headers: &[Result<EventHeader, String>],
) -> (r: LineImport)
    requires
        buffer.len() <= i64::MAX,
        line_spans(buffer@, start_offset as int, committed_len as int, spans@),
        headers.len() == spans.len(),
    ensures
        line_import_ok(
            source@,
            start_offset as int,
            newline_count(buffer@, start_offset as int) as int,
            spans@,
            headers@,
            r,
        ),
{
    let first_seq = line_number_at(buffer, start_offset);
    proof {
        assert(newline_count(buffer@, start_offset as int) <= start_offset) by {
            lemma_newline_count_bound(buffer@, start_offset as int);
        }
    }
    let mut metadata = ParsedMetadata::empty();
    let mut events: Vec<EventLine> = Vec::new();
    let mut next_read_offset: i64 = start_offset as i64;
    let mut i: usize = 0;
    while i < headers.len()
        invariant
            i <= headers.len() == spans.len(),
            buffer.len() <= i64::MAX,
            first_seq as int == newline_count(buffer@, start_offset as int),
            0 <= first_seq <= start_offset,
            line_spans(buffer@, start_offset as int, committed_len as int, spans@),
            forall|k: int| 0 <= k < i ==> headers@[k] is Ok,
            events.len() == i,
            forall|k: int|
                0 <= k < i ==> {
                    let ev = #[trigger] events@[k];
                    &&& ev.seq == first_seq + k
                    &&& opt_view(ev.ts) == event_timestamp_spec(source@, headers@[k]->Ok_0)
                    &&& ev.start == spans@[k].0
                    &&& ev.end == spans@[k].1
                },
            next_read_offset == if i == 0 {
                start_offset as int
            } else {
                spans@[i - 1].1 + 1
            },
            metadata@ == metadata_of(source@, headers@, i as int),
        decreases headers.len() - i,
    {
        let (s, e) = spans[i];
        proof {
            let sp = spans@[i as int];
            assert(start_offset <= sp.0 <= sp.1 < committed_len);
            lemma_lines_before(buffer@, start_offset as int, committed_len as int, spans@, i as int);
        }
        match &headers[i] {
            Ok(header) => {
                capture_metadata(&mut metadata, source, header);
                let ts = event_timestamp(source, header);
                events.push(EventLine { seq: first_seq + i as i64, ts, start: s, end: e });
                next_read_offset = (e + 1) as i64;
                proof {
                    lemma_decoded_prefix_step(headers@, i as int);
                }
            },
            Err(_) => {
                proof {
                    lemma_decoded_prefix_step(headers@, i as int);
                }
                let message = copy_header_message(&headers[i]);
                let invalid = InvalidLine {
                    byte_offset: s as i64,
                    line_number: first_seq + i as i64 + 1,
                    message,
                };
                return LineImport { events, next_read_offset, metadata, invalid: Some(invalid) };
            },
        }
        i = i + 1;
    }
    proof {
        lemma_decoded_prefix_all_ok(headers@);
    }
    LineImport { events, next_read_offset, metadata, invalid: None }
}

proof fn lemma_newline_count_bound(buffer: Seq<u8>, n: int)
    requires
        0 <= n <= buffer.len(),
    ensures
        newline_count(buffer, n) <= n,
    decreases n,
{
    if n > 0 {
        lemma_newline_count_bound(buffer, n - 1);
    }
}

/// The line spans before span `i` fit before it, so counting stays within the
/// buffer: `i` lines end before span `i` starts.
proof fn lemma_lines_before(buffer: Seq<u8>, start: int, end: int, spans: Seq<(usize, usize)>, i: int)
    requires
        line_spans(buffer, start, end, spans),
        0 <= i < spans.len(),
    ensures
        spans[i].0 >= start + i,
    decreases i,
{
    if i > 0 {
        lemma_lines_before(buffer, start, end, spans, i - 1);
        assert(spans[i].0 == spans[i - 1].1 + 1);
    }
}

/// Every imported line lies inside the committed range and ends at a newline,
/// so a later pass resumes at a record boundary.
pub proof fn lemma_line_import_resumes_after_a_newline(
    buffer: Seq<u8>,
    source: Seq<char>,
    start: int,
    end: int,
    first_seq: int,
    spans: Seq<(usize, usize)>,
    headers: Seq<Result<EventHeader, String>>,
    r: LineImport,
)
    requires
        line_spans(buffer, start, end, spans),
        headers.len() == spans.len(),
        line_import_ok(source, start, first_seq, spans, headers, r),
    ensures
        start <= r.next_read_offset <= end,
        r.next_read_offset > start ==> buffer[r.next_read_offset - 1] == 10u8,
        r.invalid is None ==> r.next_read_offset == end,
{
    let n = decoded_prefix(headers);
    if n > 0 {
        let sp = spans[n - 1];
        assert(start <= sp.0 <= sp.1 < end);
    }
}

// ---------------------------------------------------------------------------
// After importing
// ---------------------------------------------------------------------------
/// How much of the buffer a read offset covers: clamped to `0..=len`.
pub open spec fn consumed_len(next_read_offset: int, len: int) -> int {
    let o = if next_read_offset < 0 {
        0
    } else {
        next_read_offset
    };
    if o < len {
        o
    } else {
        len
    }
}

/// The fingerprint of the bytes a pass consumed, stored so that the next pass
/// can check they are unchanged.
pub fn consumed_prefix_fingerprint(buffer: &[u8], next_read_offset: i64) -> (r: String)
    ensures
        r@ == crate::ingest::fingerprint_spec(
            buffer@.take(consumed_len(next_read_offset as int, buffer.len() as int)),
        ),
{
    let o: u64 = if next_read_offset < 0 {
        0
    } else {
        next_read_offset as u64
    };
    let n: usize = if o < buffer.len() as u64 {
        o as usize
    } else {
        buffer.len()
    };
    let prefix = crate::ingest::slice_bytes(buffer, n);
    crate::ingest::fingerprint(prefix.as_slice())
}

/// What a pass records is accepted by the next one: when the file has only
/// grown since (its old bytes are a prefix of the new ones), the stored offset
/// and prefix fingerprint still describe an intact prefix.
pub proof fn lemma_recorded_prefix_stays_intact(old_buffer: Seq<u8>, new_buffer: Seq<u8>, next_read_offset: int)
    requires
        0 <= next_read_offset <= old_buffer.len(),
        old_buffer.len() <= new_buffer.len(),
        new_buffer.take(old_buffer.len() as int) == old_buffer,
    ensures
        crate::ingest::prefix_intact_spec(
            next_read_offset,
            Some(
                crate::ingest::fingerprint_spec(
                    old_buffer.take(consumed_len(next_read_offset, old_buffer.len() as int)),
                ),
            ),
            new_buffer,
        ),
{
    assert(new_buffer.take(next_read_offset) =~= old_buffer.take(next_read_offset));
}

// ---------------------------------------------------------------------------
// From one pass to the next
// ---------------------------------------------------------------------------
/// The session row a pass leaves once it imported `buffer` under plan `p`,
/// to resume next time at `next_read_offset`: the file's size, modification
/// time and content fingerprint, the plan's generation, the resume offset and
/// the fingerprint of the bytes consumed up to it.
pub open spec fn records_import(
    after: StoredSession,
    p: crate::ingest::ImportPlan,
    pass_size: i64,
    file_mtime: Option<i64>,
    buffer: Seq<u8>,
    next_read_offset: i64,
) -> bool {
    &&& after.current_generation == p.generation
    &&& after.file_size == Some(pass_size)
    &&& after.file_mtime == file_mtime
    &&& opt_view(after.content_fingerprint) == Some(p.content_fingerprint@)
    &&& after.next_read_offset == next_read_offset
    &&& opt_view(after.prefix_fingerprint) == Some(
        crate::ingest::fingerprint_spec(buffer.take(consumed_len(next_read_offset as int, buffer.len() as int))),
    )
}

/// The row that `records_import` describes: the stored row with the pass's
/// file size, time, fingerprints, generation and resume offset.
pub fn recorded_session(
    stored: &StoredSession,
    p: &crate::ingest::ImportPlan,
    pass_size: i64,
    file_mtime: Option<i64>,
    buffer: &[u8],
    next_read_offset: i64,
) -> (r: StoredSession)
    ensures
        records_import(r, *p, pass_size, file_mtime, buffer@, next_read_offset),
        r.id == stored.id,
        r.source_session_id@ == stored.source_session_id@,
        opt_view(r.file_path) == opt_view(stored.file_path),
        r.parent_session_id == stored.parent_session_id,
        opt_view(r.source_metadata) == opt_view(stored.source_metadata),
        r.event_count == stored.event_count,
{
    StoredSession {
        id: stored.id,
        source_session_id: owned(stored.source_session_id.as_str()),
        file_path: copy_opt(&stored.file_path),
        parent_session_id: stored.parent_session_id,
        current_generation: p.generation,
        file_size: Some(pass_size),
        file_mtime,
        content_fingerprint: Some(owned(p.content_fingerprint.as_str())),
        source_metadata: copy_opt(&stored.source_metadata),
        next_read_offset,
        event_count: stored.event_count,
        prefix_fingerprint: Some(consumed_prefix_fingerprint(buffer, next_read_offset)),
    }
}

fn copy_opt(o: &Option<String>) -> (r: Option<String>)
    ensures
        opt_view(r) == opt_view(*o),
{
    match o {
        Some(s) => Some(owned(s.as_str())),
        None => None,
    }
}

/// An unchanged file is not imported twice: once a pass has imported a file's
/// bytes and recorded them, a later pass over the same bytes skips the file,
/// inserting nothing and keeping its generation.
pub proof fn lemma_unchanged_file_imports_nothing_twice(
    format: crate::ingest::SourceFormat,
    first: StoredSession,
    buffer: Seq<u8>,
    pass_size: i64,
    retry1: bool,
    p1: crate::ingest::ImportPlan,
    file_mtime: Option<i64>,
    next_read_offset: i64,
    after: StoredSession,
    retry2: bool,
    p2: crate::ingest::ImportPlan,
)
    requires
        crate::ingest::plan_ok(format, first, buffer, pass_size, retry1, p1),
        records_import(after, p1, pass_size, file_mtime, buffer, next_read_offset),
        crate::ingest::plan_ok(format, after, buffer, pass_size, retry2, p2),
    ensures
        p2.mode == crate::ingest::ImportMode::Skip,
        p2.generation == p1.generation,
{
}

proof fn lemma_committed_len_grows(buffer: Seq<u8>, grown: Seq<u8>, n: int, m: int)
    requires
        buffer.len() <= grown.len(),
        grown.take(buffer.len() as int) == buffer,
        crate::ingest::committed_len_spec(buffer, n),
        crate::ingest::committed_len_spec(grown, m),
    ensures
        n <= m,
{
    if n > m {
        assert(grown[n - 1] == grown.take(buffer.len() as int)[n - 1]);
    }
}

/// A JSONL file that only grew since a pass recorded it is appended to: the
/// next pass keeps the generation and resumes where the last complete line
/// read before ended (a partial last line was left for it).
pub proof fn lemma_grown_file_is_appended(
    first: StoredSession,
    buffer: Seq<u8>,
    retry1: bool,
    p1: crate::ingest::ImportPlan,
    file_mtime: Option<i64>,
    after: StoredSession,
    grown: Seq<u8>,
    retry2: bool,
    p2: crate::ingest::ImportPlan,
)
    requires
        grown.len() <= i64::MAX,
        buffer.len() < grown.len(),
        grown.take(buffer.len() as int) == buffer,
        crate::ingest::plan_ok(crate::ingest::SourceFormat::Jsonl, first, buffer, buffer.len() as i64, retry1, p1),
        records_import(after, p1, buffer.len() as i64, file_mtime, buffer, p1.read_boundary),
        crate::ingest::plan_ok(crate::ingest::SourceFormat::Jsonl, after, grown, grown.len() as i64, retry2, p2),
    ensures
        crate::ingest::committed_len_spec(buffer, p1.read_boundary as int),
        p2.mode == crate::ingest::ImportMode::Append,
        p2.generation == p1.generation,
        p2.start_offset == p1.read_boundary,
{
    lemma_recorded_prefix_stays_intact(buffer, grown, p1.read_boundary as int);
    lemma_committed_len_grows(buffer, grown, p1.read_boundary as int, p2.read_boundary as int);
}

/// A JSONL file that changed where a pass had already read it, or that was cut
/// short, is imported again as the next generation (the rows of the earlier
/// generation are left as they are).
#[verifier::rlimit(100)]
#[verifier::spinoff_prover]
pub proof fn lemma_rewritten_file_opens_next_generation(
    first: StoredSession,
    buffer: Seq<u8>,
    retry1: bool,
    p1: crate::ingest::ImportPlan,
    file_mtime: Option<i64>,
    n: i64,
    after: StoredSession,
    next: Seq<u8>,
    retry2: bool,
    p2: crate::ingest::ImportPlan,
)
    requires
        0 < n <= buffer.len() <= i64::MAX,
        next.len() <= i64::MAX,
        crate::ingest::plan_ok(crate::ingest::SourceFormat::Jsonl, first, buffer, buffer.len() as i64, retry1, p1),
        records_import(after, p1, buffer.len() as i64, file_mtime, buffer, n),
        crate::ingest::plan_ok(crate::ingest::SourceFormat::Jsonl, after, next, next.len() as i64, retry2, p2),
        next.len() != buffer.len() || crate::ingest::fingerprint_spec(next) != crate::ingest::fingerprint_spec(buffer),
        n > next.len() || crate::ingest::fingerprint_spec(next.take(n as int)) != crate::ingest::fingerprint_spec(
            buffer.take(n as int),
        ) || (next.len() < buffer.len() && !retry2),
    ensures
        p2.mode == crate::ingest::ImportMode::Rewrite,
        p2.generation == p1.generation + 1,
{
    let fp_next = crate::ingest::fingerprint_spec(next);
    let intact = crate::ingest::prefix_intact_spec(
        after.next_read_offset as int,
        opt_view(after.prefix_fingerprint),
        next,
    );
    assert(consumed_len(n as int, buffer.len() as int) == n);
    assert(!intact || (next.len() < buffer.len() && !retry2));
    lemma_mode_is_rewrite(after, next.len() as i64, fp_next, intact, retry2);
}

proof fn lemma_mode_is_rewrite(after: StoredSession, pass_size: i64, fp: Seq<char>, intact: bool, retry: bool)
    requires
        after.file_size is Some,
        !(after.file_size->0 == pass_size && opt_view(after.content_fingerprint) == Some(fp)),
        !intact || (pass_size < after.file_size->0 && !retry),
    ensures
        crate::ingest::import_mode_spec(crate::ingest::SourceFormat::Jsonl, after, pass_size, fp, intact, retry)
            == crate::ingest::ImportMode::Rewrite,
{
}

} // verus!

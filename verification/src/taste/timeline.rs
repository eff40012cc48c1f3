//! Per-file content timelines reconstructed from snapshot events.
use vstd::prelude::*;

use crate::error::JottraceError;
use crate::taste::parse::{ContentRef, ParseKind, ParsedEvent};
use crate::taste::sidecar::{ResolvedContent, ResolvedView, SidecarRead, SnapshotSidecarResolver};
use crate::text::{chars_eq, chars_of, has_prefix, is_prefix, owned, slice_chars, string_from_chars};

verus! {

/// Where a timeline row's content was resolved from.
#[derive(Debug, Clone, Copy, PartialEq, Eq, Structural)]
pub enum TimelineSourceKind {
    InlineSnapshot,
    SidecarSnapshot,
    MissingSidecar,
}

impl TimelineSourceKind {
    pub open spec fn name(self) -> Seq<char> {
        match self {
            TimelineSourceKind::InlineSnapshot => "inline_snapshot"@,
            TimelineSourceKind::SidecarSnapshot => "sidecar_snapshot"@,
            TimelineSourceKind::MissingSidecar => "missing_sidecar"@,
        }
    }

    pub fn as_str(self) -> (r: &'static str)
        ensures
            r@ == self.name(),
    {
        match self {
            TimelineSourceKind::InlineSnapshot => "inline_snapshot",
            TimelineSourceKind::SidecarSnapshot => "sidecar_snapshot",
            TimelineSourceKind::MissingSidecar => "missing_sidecar",
        }
    }

    pub open spec fn named(v: Seq<char>) -> Option<TimelineSourceKind> {
        if v == "inline_snapshot"@ {
            Some(TimelineSourceKind::InlineSnapshot)
        } else if v == "sidecar_snapshot"@ {
            Some(TimelineSourceKind::SidecarSnapshot)
        } else if v == "missing_sidecar"@ {
            Some(TimelineSourceKind::MissingSidecar)
        } else {
            None
        }
    }

    /// The kind a stored row names.
    pub fn from_db_str(value: &str) -> (r: Option<TimelineSourceKind>)
        ensures
            r == TimelineSourceKind::named(value@),
    {
        if crate::text::str_eq(value, "inline_snapshot") {
            Some(TimelineSourceKind::InlineSnapshot)
        } else if crate::text::str_eq(value, "sidecar_snapshot") {
            Some(TimelineSourceKind::SidecarSnapshot)
        } else if crate::text::str_eq(value, "missing_sidecar") {
            Some(TimelineSourceKind::MissingSidecar)
        } else {
            None
        }
    }
}

/// One reconstructed per-file content state in a session timeline.
#[derive(Debug, Clone, PartialEq, Eq)]
pub struct FileTimelineRow {
    pub source: String,
    pub source_session_id: String,
    pub file_path: String,
    pub seq: usize,
    pub event_seq: usize,
    pub content: Option<String>,
    pub trigger_event_ref: Option<String>,
    pub source_kind: TimelineSourceKind,
}

/// Builds per-file content timelines from parsed and resolved snapshot events.
#[derive(Debug, Default)]
pub struct FileTimelineMaterializer;

// ---------------------------------------------------------------------------
// Paths
// ---------------------------------------------------------------------------
/// `path` with every backslash turned into a slash.
pub open spec fn forward_slashes(path: Seq<char>) -> Seq<char> {
    path.map_values(|c: char| if c == '\\' { '/' } else { c })
}

/// `s` without its trailing slashes.
pub open spec fn trim_trailing_slashes(s: Seq<char>) -> Seq<char>
    decreases s.len(),
{
    if s.len() > 0 && s.last() == '/' {
        trim_trailing_slashes(s.drop_last())
    } else {
        s
    }
}

/// A file path as stored in a timeline: slashes only, and relative to the
/// session's working directory when it lies below it.
pub open spec fn normalize_spec(path: Seq<char>, cwd: Option<Seq<char>>) -> Seq<char> {
    let p = forward_slashes(path);
    match cwd {
        Some(c) => {
            let prefix = trim_trailing_slashes(c).push('/');
            if is_prefix(prefix, p) {
                p.skip(prefix.len() as int)
            } else {
                p
            }
        },
        None => p,
    }
}

fn trim_end_slashes(s: &[char]) -> (out: Vec<char>)
    ensures
        out@ == trim_trailing_slashes(s@),
{
    let mut n = s.len();
    proof {
        assert(s@.take(n as int) =~= s@);
    }
    while n > 0 && s[n - 1] == '/'
        invariant
            n <= s.len(),
            trim_trailing_slashes(s@) == trim_trailing_slashes(s@.take(n as int)),
        decreases n,
    {
        proof {
            assert(s@.take(n as int).drop_last() =~= s@.take(n - 1));
        }
        n = n - 1;
    }
    proof {
        assert(s@.take(n as int) =~= s@.subrange(0, n as int));
    }
    slice_chars(s, 0, n)
}

/// Normalizes a file path for a timeline (see `normalize_spec`).
pub fn normalize_file_path(path: &str, cwd: Option<&str>) -> (r: String)
    ensures
        r@ == normalize_spec(
            path@,
            match cwd {
                Some(c) => Some(c@),
                None => None,
            },
        ),
{
    let raw = chars_of(path);
    let mut p: Vec<char> = Vec::new();
    let mut i: usize = 0;
    while i < raw.len()
        invariant
            i <= raw.len(),
            p@ == forward_slashes(raw@.take(i as int)),
        decreases raw.len() - i,
    {
        let c = raw[i];
        p.push(if c == '\\' { '/' } else { c });
        i = i + 1;
        proof {
            assert(forward_slashes(raw@.take(i as int)) =~= forward_slashes(raw@.take(i - 1)).push(
                if c == '\\' { '/' } else { c },
            ));
        }
    }
    proof {
        assert(raw@.take(raw.len() as int) =~= raw@);
    }
    match cwd {
        Some(c) => {
            let cc = chars_of(c);
            let mut prefix = trim_end_slashes(cc.as_slice());
            prefix.push('/');
            if has_prefix(p.as_slice(), prefix.as_slice()) {
                let rel = slice_chars(p.as_slice(), prefix.len(), p.len());
                proof {
                    assert(p@.subrange(prefix.len() as int, p.len() as int) =~= p@.skip(
                        prefix.len() as int,
                    ));
                }
                return string_from_chars(rel.as_slice());
            }
            string_from_chars(p.as_slice())
        },
        None => string_from_chars(p.as_slice()),
    }
}

// ---------------------------------------------------------------------------
// Rows
// ---------------------------------------------------------------------------
/// The last edit proposal before the end of `events` that names `path`
/// (after normalization) and carries a tool reference.
pub open spec fn last_trigger(events: Seq<ParsedEvent>, cwd: Option<Seq<char>>, path: Seq<char>) -> Option<
    Seq<char>,
>
    decreases events.len(),
{
    if events.len() == 0 {
        None
    } else {
        let e = events.last();
        if e.kind == ParseKind::ToolProposal && e.file_path is Some && e.tool_ref is Some
            && normalize_spec(e.file_path->0@, cwd) == path {
            Some(e.tool_ref->0@)
        } else {
            last_trigger(events.drop_last(), cwd, path)
        }
    }
}

/// A snapshot event that yields a row: it names a file and carries content.
pub open spec fn yields_row(e: ParsedEvent) -> bool {
    e.kind == ParseKind::FileSnapshot && e.file_path is Some && e.content_or_ref is Some
}

/// Positions of the events that yield rows, in order.
pub open spec fn row_slots(events: Seq<ParsedEvent>) -> Seq<int>
    decreases events.len(),
{
    if events.len() == 0 {
        Seq::empty()
    } else if yields_row(events.last()) {
        row_slots(events.drop_last()).push(events.len() - 1)
    } else {
        row_slots(events.drop_last())
    }
}

/// How many of `rows` are about `path`.
pub open spec fn rows_for(rows: Seq<FileTimelineRow>, path: Seq<char>) -> nat
    decreases rows.len(),
{
    if rows.len() == 0 {
        0
    } else {
        rows_for(rows.drop_last(), path) + if rows.last().file_path@ == path {
            1nat
        } else {
            0nat
        }
    }
}

/// The content and kind a row records for a resolution.
pub open spec fn row_content(r: ResolvedView) -> (Option<Seq<char>>, TimelineSourceKind) {
    match r {
        ResolvedView::Inline(c) => (Some(c), TimelineSourceKind::InlineSnapshot),
        ResolvedView::Sidecar { content, .. } => (Some(content), TimelineSourceKind::SidecarSnapshot),
        ResolvedView::MissingSidecar { .. } => (None, TimelineSourceKind::MissingSidecar),
    }
}

pub open spec fn text_opt(s: Option<String>) -> Option<Seq<char>> {
    match s {
        Some(t) => Some(t@),
        None => None,
    }
}

/// Row `j` of `rows` is the row of event `events[slot]`.
pub open spec fn row_for_event<F: Fn(&str) -> SidecarRead>(
    source: Seq<char>,
    session_id: Seq<char>,
    cwd: Option<Seq<char>>,
    resolver: SnapshotSidecarResolver,
    read: F,
    events: Seq<ParsedEvent>,
    slot: int,
    rows: Seq<FileTimelineRow>,
    j: int,
) -> bool {
    let e = events[slot];
    let row = rows[j];
    let path = normalize_spec(e.file_path->0@, cwd);
    &&& row.source@ == source
    &&& row.source_session_id@ == session_id
    &&& row.file_path@ == path
    &&& row.seq == rows_for(rows.take(j), path)
    &&& row.event_seq == e.seq
    &&& row.trigger_event_ref.is_some() == last_trigger(events.take(slot), cwd, path).is_some()
    &&& text_opt(row.trigger_event_ref) == last_trigger(events.take(slot), cwd, path)
    &&& exists|res: ResolvedContent|
        resolver.resolves_to(session_id, e.content_or_ref->0, read, Ok(res)) && row_content(res@)
            == (text_opt(row.content), row.source_kind)
}

/// `rows` is the timeline of `events`: one row per snapshot event that names a
/// file and carries content, in event order.
pub open spec fn timeline_of<F: Fn(&str) -> SidecarRead>(
    source: Seq<char>,
    session_id: Seq<char>,
    cwd: Option<Seq<char>>,
    resolver: SnapshotSidecarResolver,
    read: F,
    events: Seq<ParsedEvent>,
    rows: Seq<FileTimelineRow>,
) -> bool {
    &&& rows.len() == row_slots(events).len()
    &&& forall|j: int|
        0 <= j < rows.len() ==> row_for_event(
            source,
            session_id,
            cwd,
            resolver,
            read,
            events,
            #[trigger] row_slots(events)[j],
            rows,
            j,
        )
}

proof fn lemma_row_slots_bounds(events: Seq<ParsedEvent>)
    ensures
        forall|j: int|
            0 <= j < row_slots(events).len() ==> 0 <= #[trigger] row_slots(events)[j] < events.len()
                && yields_row(events[row_slots(events)[j]]),
        forall|j: int, k: int|
            0 <= j < k < row_slots(events).len() ==> row_slots(events)[j] < row_slots(events)[k],
    decreases events.len(),
{
    if events.len() > 0 {
        lemma_row_slots_bounds(events.drop_last());
        let prev = events.drop_last();
        assert forall|j: int|
            0 <= j < row_slots(prev).len() implies #[trigger] events[row_slots(prev)[j]] == prev[row_slots(
            prev,
        )[j]] by {}
    }
}

proof fn lemma_row_slots_prefix(events: Seq<ParsedEvent>, n: int)
    requires
        0 <= n <= events.len(),
    ensures
        row_slots(events.take(n)).len() <= row_slots(events).len(),
        forall|j: int|
            0 <= j < row_slots(events.take(n)).len() ==> #[trigger] row_slots(events)[j] == row_slots(
                events.take(n),
            )[j],
    decreases events.len() - n,
{
    if n < events.len() {
        lemma_row_slots_prefix(events, n + 1);
        assert(events.take(n + 1).drop_last() =~= events.take(n));
    } else {
        assert(events.take(n) =~= events);
    }
}

/// The tool reference of the last proposal before position `end` that names `path`.
fn find_last_trigger(events: &[ParsedEvent], end: usize, cwd: Option<&str>, path: &[char]) -> (r: Option<
    String,
>)
    requires
        end <= events.len(),
    ensures
        text_opt(r) == last_trigger(
            events@.take(end as int),
            match cwd {
                Some(c) => Some(c@),
                None => None,
            },
            path@,
        ),
{
    let ghost cw = match cwd {
        Some(c) => Some(c@),
        None => None,
    };
    let mut k = end;
    while k > 0
        invariant
            k <= end <= events.len(),
            cw == match cwd {
                Some(c) => Some(c@),
                None => None,
            },
            last_trigger(events@.take(end as int), cw, path@) == last_trigger(
                events@.take(k as int),
                cw,
                path@,
            ),
        decreases k,
    {
        let e = &events[k - 1];
        proof {
            assert(events@.take(k as int).drop_last() =~= events@.take(k - 1));
            assert(events@.take(k as int).last() == events@[k - 1]);
        }
        let is_proposal = match e.kind {
            ParseKind::ToolProposal => true,
            _ => false,
        };
        if is_proposal {
            match (&e.file_path, &e.tool_ref) {
                (Some(fp), Some(tr)) => {
                    let norm = normalize_file_path(fp.as_str(), cwd);
                    let nc = chars_of(norm.as_str());
                    if chars_eq(nc.as_slice(), path) {
                        return Some(tr.clone());
                    }
                },
                _ => {},
            }
        }
        k = k - 1;
    }
    None
}

/// How many of `rows` are about `path`.
fn count_rows_for(rows: &Vec<FileTimelineRow>, path: &[char]) -> (n: usize)
    ensures
        n == rows_for(rows@, path@),
{
    let mut n: usize = 0;
    let mut i: usize = 0;
    while i < rows.len()
        invariant
            i <= rows.len(),
            n == rows_for(rows@.take(i as int), path@),
            n <= i,
        decreases rows.len() - i,
    {
        proof {
            assert(rows@.take(i + 1).drop_last() =~= rows@.take(i as int));
        }
        let rc = chars_of(rows[i].file_path.as_str());
        if chars_eq(rc.as_slice(), path) {
            n = n + 1;
        }
        i = i + 1;
    }
    proof {
        assert(rows@.take(rows.len() as int) =~= rows@);
    }
    n
}

impl FileTimelineMaterializer {
    /// One row per snapshot event that names a file and carries content, in
    /// event order: the file path relative to `cwd`, the row's position among
    /// the file's rows, the last edit proposal for the file before it, and the
    /// resolved content. A failed sidecar read fails the whole call.
    pub fn materialize<F: Fn(&str) -> SidecarRead>(
        source: &str,
        source_session_id: &str,
        cwd: Option<&str>,
        resolver: &SnapshotSidecarResolver,
        events: &[ParsedEvent],
        read: &F,
    ) -> (r: Result<Vec<FileTimelineRow>, JottraceError>)
        requires
            forall|path: &str| call_requires(*read, (path,)),
        ensures
            match r {
                Ok(rows) => timeline_of(
                    source@,
                    source_session_id@,
                    match cwd {
                        Some(c) => Some(c@),
                        None => None,
                    },
                    *resolver,
                    *read,
                    events@,
                    rows@,
                ),
                Err(e) => exists|j: int|
                    0 <= j < row_slots(events@).len() && resolver.resolves_to(
                        source_session_id@,
                        events@[#[trigger] row_slots(events@)[j]].content_or_ref->0,
                        *read,
                        Err(e),
                    ),
            },
    {
        let ghost cw = match cwd {
            Some(c) => Some(c@),
            None => None,
        };
        let mut rows: Vec<FileTimelineRow> = Vec::new();
        let mut i: usize = 0;
        while i < events.len()
            invariant
                i <= events.len(),
                forall|path: &str| call_requires(*read, (path,)),
                cw == match cwd {
                    Some(c) => Some(c@),
                    None => None,
                },
                rows.len() == row_slots(events@.take(i as int)).len(),
                forall|j: int|
                    0 <= j < rows.len() ==> row_for_event(
                        source@,
                        source_session_id@,
                        cw,
                        *resolver,
                        *read,
                        events@,
                        #[trigger] row_slots(events@.take(i as int))[j],
                        rows@,
                        j,
                    ),
            decreases events.len() - i,
        {
            let event = &events[i];
            let ghost before = row_slots(events@.take(i as int));
            proof {
                assert(events@.take(i + 1).drop_last() =~= events@.take(i as int));
                assert(events@.take(i + 1).last() == events@[i as int]);
                lemma_row_slots_bounds(events@.take(i as int));
            }
            let is_snapshot = match event.kind {
                ParseKind::FileSnapshot => true,
                _ => false,
            };
            let fields = match (&event.file_path, &event.content_or_ref) {
                (Some(fp), Some(cr)) => Some((fp, cr)),
                _ => None,
            };
            if is_snapshot && fields.is_some() {
                let (fp, content_ref) = fields.unwrap();
                let file_path = normalize_file_path(fp.as_str(), cwd);
                let path_chars = chars_of(file_path.as_str());
                let resolved = resolver.resolve(source_session_id, content_ref, read);
                let res = match resolved {
                    Ok(res) => res,
                    Err(e) => {
                        proof {
                            assert(row_slots(events@.take(i + 1)) == before.push(i as int));
                            lemma_row_slots_prefix(events@, i as int + 1);
                            let j = before.len() as int;
                            assert(row_slots(events@)[j] == i);
                        }
                        return Err(e);
                    },
                };
                let ghost res_copy = res;
                let (content, source_kind) = match res {
                    ResolvedContent::Inline(content) => (
                        Some(content),
                        TimelineSourceKind::InlineSnapshot,
                    ),
                    ResolvedContent::Sidecar { content, .. } => (
                        Some(content),
                        TimelineSourceKind::SidecarSnapshot,
                    ),
                    ResolvedContent::MissingSidecar { .. } => (
                        None,
                        TimelineSourceKind::MissingSidecar,
                    ),
                };
                let seq = count_rows_for(&rows, path_chars.as_slice());
                let trigger_event_ref = find_last_trigger(events, i, cwd, path_chars.as_slice());
                let row = FileTimelineRow {
                    source: owned(source),
                    source_session_id: owned(source_session_id),
                    file_path,
                    seq,
                    event_seq: event.seq,
                    content,
                    trigger_event_ref,
                    source_kind,
                };
                let ghost old_rows = rows@;
                rows.push(row);
                proof {
                    assert(row_slots(events@.take(i + 1)) == before.push(i as int));
                    assert(rows@.take(old_rows.len() as int) =~= old_rows);
                    assert(row_content(res_copy@) == (text_opt(row.content), row.source_kind));
                    assert forall|j: int| 0 <= j < rows.len() implies row_for_event(
                        source@,
                        source_session_id@,
                        cw,
                        *resolver,
                        *read,
                        events@,
                        #[trigger] row_slots(events@.take(i + 1))[j],
                        rows@,
                        j,
                    ) by {
                        if j < old_rows.len() {
                            assert(row_slots(events@.take(i + 1))[j] == before[j]);
                            assert(rows@[j] == old_rows[j]);
                            assert(rows@.take(j) =~= old_rows.take(j));
                            assert(row_for_event(
                                source@,
                                source_session_id@,
                                cw,
                                *resolver,
                                *read,
                                events@,
                                before[j],
                                old_rows,
                                j,
                            ));
                        } else {
                            assert(row_slots(events@.take(i + 1))[j] == i);
                            assert(rows@[j] == row);
                        }
                    }
                }
            } else {
                proof {
                    assert(row_slots(events@.take(i + 1)) == before);
                }
            }
            i = i + 1;
        }
        proof {
            assert(events@.take(events.len() as int) =~= events@);
        }
        Ok(rows)
    }
}

} // verus!

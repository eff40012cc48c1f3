//! The per-session part of taste extraction: from the payload lines of a
//! parent session and its subagents to timeline rows and labeled examples,
//! and when a stored extraction is stale.
use vstd::prelude::*;

use crate::error::JottraceError;
use crate::taste::compiler::{compile_spec, example_views, PreferenceCompiler, PreferenceExample};
use crate::taste::parse::{
    jsonl_views, merge_streams, merged, parse_jsonl, views, ContentRef, EventView, ParsedEvent,
    SourceStream, StreamView,
};
use crate::taste::sidecar::{ResolvedContent, SidecarRead, SnapshotSidecarResolver};
use crate::taste::timeline::{row_slots, timeline_of, FileTimelineMaterializer, FileTimelineRow};
use crate::text::{find_last, owned, push_str, slice_chars, string_from_chars, chars_of};

verus! {

/// The session source taste extraction reads.
pub const CLAUDE_SOURCE: &'static str = "claude_cli";

/// Options for `jottrace taste extract`.
#[derive(Debug, Clone, Default, PartialEq, Eq)]
pub struct TasteExtractOptions {
    /// When set, extract only this `claude_cli` parent `source_session_id`.
    pub source_session_id: Option<String>,
    /// Re-extract even when rows already exist at the current extractor version.
    pub force: bool,
    /// Override the `claude_cli` file-history root.
    pub sidecar_history_root: Option<String>,
}

/// Summary returned after a taste extraction run.
#[derive(Debug, Clone, PartialEq, Eq)]
pub struct TasteExtractReport {
    pub db_path: String,
    pub sessions_processed: u64,
    pub sessions_skipped: u64,
    pub timeline_rows_written: u64,
    pub preference_examples_written: u64,
}

/// The agent id of a subagent session: what follows the last `/subagents/`,
/// or the whole id when there is none.
pub open spec fn agent_id_spec(id: Seq<char>) -> Seq<char> {
    let marker = "/subagents/"@;
    if exists|i: int| crate::text::occurs_at(id, marker, i) {
        let i = choose|i: int|
            crate::text::occurs_at(id, marker, i) && forall|j: int|
                crate::text::occurs_at(id, marker, j) ==> j <= i;
        id.skip(i + marker.len())
    } else {
        id
    }
}

/// The agent id of subagent session `source_session_id` (see `agent_id_spec`).
pub fn subagent_agent_id(source_session_id: &str) -> (r: String)
    ensures
        r@ == agent_id_spec(source_session_id@),
{
    let id = chars_of(source_session_id);
    let marker = chars_of("/subagents/");
    match find_last(id.as_slice(), marker.as_slice()) {
        Some(i) => {
            let n = id.len();
            let m = marker.len();
            proof {
                assert(crate::text::occurs_at(id@, marker@, i as int));
                assert(i + m <= n);
            }
            let rest = slice_chars(id.as_slice(), i + m, n);
            proof {
                let k = choose|k: int|
                    crate::text::occurs_at(id@, marker@, k) && forall|j: int|
                        crate::text::occurs_at(id@, marker@, j) ==> j <= k;
                assert(k == i);
                assert(rest@ =~= id@.skip(i + marker@.len()));
            }
            string_from_chars(rest.as_slice())
        },
        None => owned(source_session_id),
    }
}

/// A stored extraction is stale when it was made by another extractor version
/// or over another number of events; without one, when the session has no
/// examples or some from another version.
pub open spec fn needs_extract_spec(
    stored: Option<(Seq<char>, i64)>,
    current_event_count: u64,
    total_examples: i64,
    stale_examples: i64,
) -> bool {
    match stored {
        Some((version, event_count)) => version != "0.1.0"@ || event_count != current_event_count,
        None => total_examples == 0 || stale_examples > 0,
    }
}

/// Extraction is not repeated: once a session's extraction is recorded with
/// this extractor's version over `event_count` events, it needs no new
/// extraction while the session still has that many events, whatever its
/// examples.
pub proof fn lemma_recorded_extraction_is_not_repeated(event_count: u64, total_examples: i64, stale_examples: i64)
    requires
        event_count <= i64::MAX,
    ensures
        !needs_extract_spec(
            Some((crate::taste::compiler::EXTRACTOR_VERSION@, event_count as i64)),
            event_count,
            total_examples,
            stale_examples,
        ),
{
}

/// Checks the parent sessions an extraction selected: a run asked for one
/// session must find it (`SessionNotFound` under `claude_cli` otherwise); a run
/// over every session accepts any number, none included.
pub fn check_selected_sessions(requested: Option<&str>, selected: usize) -> (r: Result<(), JottraceError>)
    ensures
        match requested {
            Some(id) => if selected == 0 {
                r matches Err(JottraceError::SessionNotFound { source, source_session_id })
                    && source@ == CLAUDE_SOURCE@ && source_session_id@ == id@
            } else {
                r is Ok
            },
            None => r is Ok,
        },
{
    match requested {
        Some(id) => if selected == 0 {
            Err(JottraceError::SessionNotFound { source: owned(CLAUDE_SOURCE), source_session_id: owned(id) })
        } else {
            Ok(())
        },
        None => Ok(()),
    }
}

/// Whether a session's extraction must be redone (see `needs_extract_spec`).
pub fn session_needs_extract(
    stored: Option<(&str, i64)>,
    current_event_count: u64,
    total_examples: i64,
    stale_examples: i64,
) -> (r: bool)
    requires
        match stored {
            Some((v, n)) => v@ == "0.1.0"@ ==> n >= 0,
            None => true,
        },
    ensures
        r == needs_extract_spec(
            match stored {
                Some((v, n)) => Some((v@, n)),
                None => None,
            },
            current_event_count,
            total_examples,
            stale_examples,
        ),
{
    match stored {
        Some((version, event_count)) => !crate::text::str_eq(
            version,
            crate::taste::compiler::EXTRACTOR_VERSION,
        ) || (event_count as u64) != current_event_count,
        None => total_examples == 0 || stale_examples > 0,
    }
}

/// Events of a parent session and its subagents together.
pub fn count_merged_session_events(parent_count: i64, child_count: i64) -> (r: u64)
    requires
        parent_count + child_count >= 0,
        parent_count + child_count <= i64::MAX,
    ensures
        r == parent_count + child_count,
{
    (parent_count + child_count) as u64
}

/// The message for a session whose stored payloads are not all JSON.
pub fn invalid_session_json_message(source_session_id: &str, message: &str) -> (r: String)
    ensures
        r@ == "invalid JSON in claude_cli session "@ + source_session_id@ + ": "@ + message@,
{
    let mut out: Vec<char> = Vec::new();
    push_str(&mut out, "invalid JSON in claude_cli session ");
    push_str(&mut out, source_session_id);
    push_str(&mut out, ": ");
    push_str(&mut out, message);
    string_from_chars(out.as_slice())
}

/// The raw payload lines of one session of a tree.
pub struct SessionLines {
    pub source_session_id: String,
    pub lines: Vec<Vec<u8>>,
}

/// Why extraction of one session failed.
#[derive(Debug, Clone, PartialEq, Eq)]
pub enum ExtractFailure {
    /// A payload of the named session is not JSON; the decoder's message.
    InvalidJson { source_session_id: String, message: String },
    /// Resolving a snapshot failed.
    Resolve(JottraceError),
}

/// What extraction produced for one session.
pub struct ExtractedSession {
    pub events: Vec<ParsedEvent>,
    pub timeline_rows: Vec<FileTimelineRow>,
    pub examples: Vec<PreferenceExample>,
}

impl TasteExtractReport {
    /// An empty report for the journal at `db_path`.
    pub fn new(db_path: &str) -> (r: Self)
        ensures
            r.db_path@ == db_path@,
            r.sessions_processed == 0,
            r.sessions_skipped == 0,
            r.timeline_rows_written == 0,
            r.preference_examples_written == 0,
    {
        TasteExtractReport {
            db_path: owned(db_path),
            sessions_processed: 0,
            sessions_skipped: 0,
            timeline_rows_written: 0,
            preference_examples_written: 0,
        }
    }

    /// Counts a session whose extraction was up to date.
    pub fn record_skipped(&mut self)
        requires
            old(self).sessions_skipped < u64::MAX,
        ensures
            final(self).sessions_skipped == old(self).sessions_skipped + 1,
            final(self).sessions_processed == old(self).sessions_processed,
            final(self).timeline_rows_written == old(self).timeline_rows_written,
            final(self).preference_examples_written == old(self).preference_examples_written,
            final(self).db_path == old(self).db_path,
    {
        self.sessions_skipped = self.sessions_skipped + 1;
    }

    /// Counts a session that was extracted, with the rows it wrote.
    pub fn record_processed(&mut self, timeline_rows: u64, examples: u64)
        requires
            old(self).sessions_processed < u64::MAX,
            old(self).timeline_rows_written + timeline_rows <= u64::MAX,
            old(self).preference_examples_written + examples <= u64::MAX,
        ensures
            final(self).sessions_processed == old(self).sessions_processed + 1,
            final(self).timeline_rows_written == old(self).timeline_rows_written + timeline_rows,
            final(self).preference_examples_written == old(self).preference_examples_written
                + examples,
            final(self).sessions_skipped == old(self).sessions_skipped,
            final(self).db_path == old(self).db_path,
    {
        self.sessions_processed = self.sessions_processed + 1;
        self.timeline_rows_written = self.timeline_rows_written + timeline_rows;
        self.preference_examples_written = self.preference_examples_written + examples;
    }
}

/// The stream a child session's events are attributed to.
pub open spec fn child_stream(c: SessionLines) -> StreamView {
    StreamView::Subagent(agent_id_spec(c.source_session_id@))
}

/// A child session whose lines do not all parse.
pub open spec fn child_fails(c: SessionLines) -> bool {
    jsonl_views(child_stream(c), c.lines@) is Err
}

/// The first child whose lines do not all parse: its session id and the
/// decoder's message.
pub open spec fn first_invalid_child(children: Seq<SessionLines>) -> Option<(Seq<char>, Seq<char>)>
    decreases children.len(),
{
    if children.len() == 0 {
        None
    } else if child_fails(children[0]) {
        Some((children[0].source_session_id@, jsonl_views(child_stream(children[0]), children[0].lines@)->Err_0))
    } else {
        first_invalid_child(children.drop_first())
    }
}

/// The session and message an extraction is refused with because lines are
/// not JSON: the parent's, else the first failing child's; `None` when every
/// stream parses.
pub open spec fn first_invalid(
    session_id: Seq<char>,
    parent_lines: Seq<Vec<u8>>,
    children: Seq<SessionLines>,
) -> Option<(Seq<char>, Seq<char>)> {
    match jsonl_views(StreamView::Parent, parent_lines) {
        Err(message) => Some((session_id, message)),
        Ok(_) => first_invalid_child(children),
    }
}

/// `events` is the merge of the tree's parsed streams: the parent's first,
/// then each child's, attributed to its agent id.
pub open spec fn tree_timeline(parent_lines: Seq<Vec<u8>>, children: Seq<SessionLines>, events: Seq<ParsedEvent>) -> bool {
    exists|streams: Seq<(SourceStream, Vec<ParsedEvent>)>|
        #![trigger merged(streams, events)]
        {
            &&& merged(streams, events)
            &&& streams.len() == children.len() + 1
            &&& streams[0].0 == SourceStream::Parent
            &&& jsonl_views(streams[0].0@, parent_lines) == Ok::<Seq<EventView>, Seq<char>>(
                views(streams[0].1@),
            )
            &&& forall|k: int|
                0 <= k < children.len() ==> (#[trigger] streams[k + 1]).0@ == child_stream(children[k])
                    && jsonl_views(streams[k + 1].0@, children[k].lines@) == Ok::<
                    Seq<EventView>,
                    Seq<char>,
                >(views(streams[k + 1].1@))
        }
}

/// Every row of `events` takes inline content: building them reads nothing.
pub open spec fn all_rows_inline(events: Seq<ParsedEvent>) -> bool {
    forall|j: int|
        0 <= j < row_slots(events).len() ==> events[#[trigger] row_slots(events)[j]].content_or_ref matches Some(
            ContentRef::Inline(_),
        )
}

proof fn lemma_first_invalid_child(children: Seq<SessionLines>, k: int)
    requires
        0 <= k <= children.len(),
        forall|j: int| 0 <= j < k ==> !child_fails(#[trigger] children[j]),
    ensures
        k < children.len() && child_fails(children[k]) ==> first_invalid_child(children) == Some(
            (children[k].source_session_id@, jsonl_views(child_stream(children[k]), children[k].lines@)->Err_0),
        ),
        k == children.len() ==> first_invalid_child(children) is None,
    decreases k,
{
    if k > 0 {
        let rest = children.drop_first();
        assert(!child_fails(children[0]));
        assert forall|j: int| 0 <= j < k - 1 implies !child_fails(#[trigger] rest[j]) by {
            assert(rest[j] == children[j + 1]);
        }
        lemma_first_invalid_child(rest, k - 1);
        if k < children.len() {
            assert(rest[k - 1] == children[k]);
        }
    }
}

/// Extracts one parent session: parses the parent's and each subagent's lines
/// (each subagent attributed by its agent id), merges them into one timeline,
/// materializes per-file content and labels every proposal. Lines that are not
/// JSON refuse the extraction; otherwise only a failed sidecar read can fail it.
pub fn extract_session<F: Fn(&str) -> SidecarRead>(
    source_session_id: &str,
    cwd: Option<&str>,
    resolver: &SnapshotSidecarResolver,
    parent_lines: &[Vec<u8>],
    children: &[SessionLines],
    read: &F,
) -> (r: Result<ExtractedSession, ExtractFailure>)
    requires
        forall|path: &str| call_requires(*read, (path,)),
    ensures
        match r {
            Ok(x) => {
                &&& first_invalid(source_session_id@, parent_lines@, children@) is None
                &&& tree_timeline(parent_lines@, children@, x.events@)
                &&& timeline_of(
                    CLAUDE_SOURCE@,
                    source_session_id@,
                    match cwd {
                        Some(c) => Some(c@),
                        None => None,
                    },
                    *resolver,
                    *read,
                    x.events@,
                    x.timeline_rows@,
                )
                &&& example_views(x.examples@) == compile_spec(
                    CLAUDE_SOURCE@,
                    source_session_id@,
                    match cwd {
                        Some(c) => Some(c@),
                        None => None,
                    },
                    x.events@,
                    x.timeline_rows@,
                    x.events@,
                )
            },
            Err(ExtractFailure::InvalidJson { source_session_id: id, message }) => first_invalid(
                source_session_id@,
                parent_lines@,
                children@,
            ) == Some((id@, message@)),
            Err(ExtractFailure::Resolve(e)) => {
                &&& first_invalid(source_session_id@, parent_lines@, children@) is None
                &&& exists|events: Seq<ParsedEvent>|
                    #[trigger] tree_timeline(parent_lines@, children@, events) && exists|j: int|
                        0 <= j < row_slots(events).len() && resolver.resolves_to(
                            source_session_id@,
                            events[#[trigger] row_slots(events)[j]].content_or_ref->0,
                            *read,
                            Err(e),
                        )
            },
        },
        first_invalid(source_session_id@, parent_lines@, children@) is Some ==> r matches Err(
            ExtractFailure::InvalidJson { .. },
        ),
        (first_invalid(source_session_id@, parent_lines@, children@) is None && forall|
            events: Seq<ParsedEvent>,
        | #[trigger] tree_timeline(parent_lines@, children@, events) ==> all_rows_inline(events))
            ==> r is Ok,
{
    let parent_events = match parse_jsonl(&SourceStream::Parent, parent_lines) {
        Ok(events) => events,
        Err(message) => {
            return Err(
                ExtractFailure::InvalidJson {
                    source_session_id: owned(source_session_id),
                    message,
                },
            );
        },
    };
    let mut streams: Vec<(SourceStream, Vec<ParsedEvent>)> = Vec::new();
    streams.push((SourceStream::Parent, parent_events));
    let mut k: usize = 0;
    while k < children.len()
        invariant
            k <= children.len(),
            streams.len() == k + 1,
            streams@[0].0 == SourceStream::Parent,
            jsonl_views(streams@[0].0@, parent_lines@) == Ok::<Seq<EventView>, Seq<char>>(
                views(streams@[0].1@),
            ),
            forall|j: int|
                0 <= j < k ==> (#[trigger] streams@[j + 1]).0@ == child_stream(children@[j])
                    && jsonl_views(streams@[j + 1].0@, children@[j].lines@) == Ok::<
                    Seq<EventView>,
                    Seq<char>,
                >(views(streams@[j + 1].1@)),
            forall|j: int| 0 <= j < k ==> !child_fails(#[trigger] children@[j]),
        decreases children.len() - k,
    {
        let child = &children[k];
        let agent_id = subagent_agent_id(child.source_session_id.as_str());
        let stream = SourceStream::Subagent { agent_id };
        match parse_jsonl(&stream, child.lines.as_slice()) {
            Ok(events) => {
                let ghost before = streams@;
                streams.push((stream, events));
                proof {
                    assert forall|j: int| 0 <= j < k + 1 implies (#[trigger] streams@[j + 1]).0@
                        == child_stream(children@[j]) && jsonl_views(
                        streams@[j + 1].0@,
                        children@[j].lines@,
                    ) == Ok::<Seq<EventView>, Seq<char>>(views(streams@[j + 1].1@)) by {
                        if j < k {
                            assert(streams@[j + 1] == before[j + 1]);
                        }
                    }
                    assert forall|j: int| 0 <= j < k + 1 implies !child_fails(#[trigger] children@[j]) by {
                        if j < k {
                            assert(!child_fails(children@[j]));
                        } else {
                            assert(jsonl_views(child_stream(children@[j]), children@[j].lines@) is Ok);
                        }
                    }
                }
            },
            Err(message) => {
                proof {
                    assert(child_fails(children@[k as int]));
                    lemma_first_invalid_child(children@, k as int);
                }
                return Err(
                    ExtractFailure::InvalidJson {
                        source_session_id: child.source_session_id.clone(),
                        message,
                    },
                );
            },
        }
        k = k + 1;
    }
    proof {
        lemma_first_invalid_child(children@, children.len() as int);
    }
    let ghost all = streams@;
    let events = merge_streams(streams);
    proof {
        assert(merged(all, events@));
        assert(tree_timeline(parent_lines@, children@, events@));
    }
    let timeline_rows = match FileTimelineMaterializer::materialize(
        CLAUDE_SOURCE,
        source_session_id,
        cwd,
        resolver,
        events.as_slice(),
        read,
    ) {
        Ok(rows) => rows,
        Err(e) => {
            proof {
                let j = choose|j: int|
                    0 <= j < row_slots(events@).len() && resolver.resolves_to(
                        source_session_id@,
                        events@[#[trigger] row_slots(events@)[j]].content_or_ref->0,
                        *read,
                        Err(e),
                    );
                if forall|ev: Seq<ParsedEvent>|
                    #[trigger] tree_timeline(parent_lines@, children@, ev) ==> all_rows_inline(ev) {
                    assert(all_rows_inline(events@));
                    let c = events@[row_slots(events@)[j]].content_or_ref;
                    assert(c matches Some(ContentRef::Inline(_)));
                    let failed: Result<ResolvedContent, JottraceError> = Err(e);
                    assert(resolver.resolves_to(source_session_id@, c->0, *read, failed));
                    match c->0 {
                        ContentRef::Inline(text) => {
                            reveal(SnapshotSidecarResolver::resolves_to);
                            assert(failed is Ok);
                        },
                        _ => {
                            assert(false);
                        },
                    }
                }
            }
            return Err(ExtractFailure::Resolve(e));
        },
    };
    let examples = PreferenceCompiler::compile(
        CLAUDE_SOURCE,
        source_session_id,
        cwd,
        events.as_slice(),
        timeline_rows.as_slice(),
    );
    Ok(ExtractedSession { events, timeline_rows, examples })
}

} // verus!

//! Normalised events read from `claude_cli` session payloads, and the merge of a
//! parent stream with its subagent streams into one timeline.
use vstd::prelude::*;

use crate::json::{
    get_opt, get_str, json_array, json_get, json_get_opt, json_str, json_u64, owned_opt,
    opt_deref, decode_json, json_parse_result, JsonValue,
};
use crate::text::{
    chars_of, chars_order, contains_chars, contains_run, join, join_chars, owned, seq_lt,
    string_from_chars,
};

verus! {

/// Where a parsed event originated within a `claude_cli` session tree.
#[derive(Debug, Clone, PartialEq, Eq)]
pub enum SourceStream {
    Parent,
    Subagent { agent_id: String },
}

/// Resolved or referenced file content from a snapshot or tool proposal.
#[derive(Debug, Clone, PartialEq, Eq)]
pub enum ContentRef {
    Inline(String),
    Sidecar { backup_file_name: String, version: Option<u64> },
}

/// Normalized event kinds emitted by the `claude_cli` parse layer.
#[derive(Debug, Clone, Copy, PartialEq, Eq, Structural)]
pub enum ParseKind {
    FileSnapshot,
    ToolProposal,
    ToolResult,
    PermissionDenial,
}

/// One normalized row from walking decoded `claude_cli` event payloads.
#[derive(Debug, Clone, PartialEq, Eq)]
pub struct ParsedEvent {
    pub seq: usize,
    pub timestamp: Option<String>,
    pub kind: ParseKind,
    pub file_path: Option<String>,
    pub content_or_ref: Option<ContentRef>,
    pub tool_ref: Option<String>,
    pub tool_name: Option<String>,
    pub source_stream: SourceStream,
}

// ---------------------------------------------------------------------------
// Models
// ---------------------------------------------------------------------------
pub enum StreamView {
    Parent,
    Subagent(Seq<char>),
}

pub enum ContentView {
    Inline(Seq<char>),
    Sidecar { backup_file_name: Seq<char>, version: Option<u64> },
}

pub struct EventView {
    pub seq: usize,
    pub timestamp: Option<Seq<char>>,
    pub kind: ParseKind,
    pub file_path: Option<Seq<char>>,
    pub content: Option<ContentView>,
    pub tool_ref: Option<Seq<char>>,
    pub tool_name: Option<Seq<char>>,
    pub stream: StreamView,
}

pub open spec fn text_of(s: Option<String>) -> Option<Seq<char>> {
    match s {
        Some(t) => Some(t@),
        None => None,
    }
}

impl View for SourceStream {
    type V = StreamView;

    open spec fn view(&self) -> StreamView {
        match self {
            SourceStream::Parent => StreamView::Parent,
            SourceStream::Subagent { agent_id } => StreamView::Subagent(agent_id@),
        }
    }
}

impl View for ContentRef {
    type V = ContentView;

    open spec fn view(&self) -> ContentView {
        match self {
            ContentRef::Inline(s) => ContentView::Inline(s@),
            ContentRef::Sidecar { backup_file_name, version } => ContentView::Sidecar {
                backup_file_name: backup_file_name@,
                version: *version,
            },
        }
    }
}

impl View for ParsedEvent {
    type V = EventView;

    open spec fn view(&self) -> EventView {
        EventView {
            seq: self.seq,
            timestamp: text_of(self.timestamp),
            kind: self.kind,
            file_path: text_of(self.file_path),
            content: match self.content_or_ref {
                Some(c) => Some(c@),
                None => None,
            },
            tool_ref: text_of(self.tool_ref),
            tool_name: text_of(self.tool_name),
            stream: self.source_stream@,
        }
    }
}

/// The models of a list of events.
pub open spec fn views(events: Seq<ParsedEvent>) -> Seq<EventView> {
    events.map_values(|e: ParsedEvent| e@)
}

impl SourceStream {
    /// An identical copy.
    pub fn duplicate(&self) -> (r: SourceStream)
        ensures
            r == *self,
    {
        match self {
            SourceStream::Parent => SourceStream::Parent,
            SourceStream::Subagent { agent_id } => SourceStream::Subagent {
                agent_id: agent_id.clone(),
            },
        }
    }
}

impl ContentRef {
    /// An identical copy.
    pub fn duplicate(&self) -> (r: ContentRef)
        ensures
            r == *self,
    {
        match self {
            ContentRef::Inline(s) => ContentRef::Inline(s.clone()),
            ContentRef::Sidecar { backup_file_name, version } => ContentRef::Sidecar {
                backup_file_name: backup_file_name.clone(),
                version: *version,
            },
        }
    }
}

// ---------------------------------------------------------------------------
// Reading one payload
// ---------------------------------------------------------------------------
/// The event's own timestamp, else its snapshot's.
pub open spec fn event_timestamp_spec(value: JsonValue) -> Option<Seq<char>> {
    match json_str(json_get(value, "timestamp"@)) {
        Some(t) => Some(t),
        None => json_str(json_get_opt(json_get(value, "snapshot"@), "timestamp"@)),
    }
}

pub open spec fn or_else(a: Option<Seq<char>>, b: Option<Seq<char>>) -> Option<Seq<char>> {
    match a {
        Some(x) => Some(x),
        None => b,
    }
}

/// A snapshot row.
pub open spec fn snapshot_view(
    seq: usize,
    stream: StreamView,
    timestamp: Option<Seq<char>>,
    file_path: Seq<char>,
    content: Option<ContentView>,
) -> EventView {
    EventView {
        seq,
        timestamp,
        kind: ParseKind::FileSnapshot,
        file_path: Some(file_path),
        content,
        tool_ref: None,
        tool_name: None,
        stream,
    }
}

/// Snapshot rows of the list shape: entries with a `filePath` and inline `content`.
pub open spec fn snapshot_list_views(
    seq: usize,
    stream: StreamView,
    timestamp: Option<Seq<char>>,
    entries: Seq<JsonValue>,
) -> Seq<EventView>
    decreases entries.len(),
{
    if entries.len() == 0 {
        Seq::empty()
    } else {
        let before = snapshot_list_views(seq, stream, timestamp, entries.drop_last());
        let entry = entries.last();
        match json_str(json_get(entry, "filePath"@)) {
            Some(path) => before.push(
                snapshot_view(
                    seq,
                    stream,
                    or_else(json_str(json_get(entry, "timestamp"@)), timestamp),
                    path,
                    match json_str(json_get(entry, "content"@)) {
                        Some(c) => Some(ContentView::Inline(c)),
                        None => None,
                    },
                ),
            ),
            None => before,
        }
    }
}

/// Snapshot rows of the map shape: file path to a sidecar backup reference.
pub open spec fn snapshot_map_views(
    seq: usize,
    stream: StreamView,
    timestamp: Option<Seq<char>>,
    entries: Seq<(String, JsonValue)>,
) -> Seq<EventView>
    decreases entries.len(),
{
    if entries.len() == 0 {
        Seq::empty()
    } else {
        let before = snapshot_map_views(seq, stream, timestamp, entries.drop_last());
        let (path, entry) = entries.last();
        before.push(
            snapshot_view(
                seq,
                stream,
                or_else(json_str(json_get(entry, "backupTime"@)), timestamp),
                path@,
                match json_str(json_get(entry, "backupFileName"@)) {
                    Some(b) => Some(
                        ContentView::Sidecar {
                            backup_file_name: b,
                            version: json_u64(json_get(entry, "version"@)),
                        },
                    ),
                    None => None,
                },
            ),
        )
    }
}

/// The backups tracked by a `file-history-snapshot` payload.
pub open spec fn snapshot_views(
    seq: usize,
    stream: StreamView,
    timestamp: Option<Seq<char>>,
    value: JsonValue,
) -> Seq<EventView> {
    match json_get_opt(json_get(value, "snapshot"@), "trackedFileBackups"@) {
        Some(JsonValue::Array(entries)) => snapshot_list_views(seq, stream, timestamp, entries@),
        Some(JsonValue::Object(entries)) => snapshot_map_views(seq, stream, timestamp, entries@),
        _ => Seq::empty(),
    }
}

/// `message.content` as a list of blocks.
pub open spec fn message_blocks(value: JsonValue) -> Option<Seq<JsonValue>> {
    json_array(json_get_opt(json_get(value, "message"@), "content"@))
}

/// The content an agent proposed for a file, by tool.
pub open spec fn proposal_content_spec(tool_name: Option<Seq<char>>, input: Option<JsonValue>) -> Option<
    ContentView,
> {
    match input {
        None => None,
        Some(input) => {
            let text = if tool_name == Some("Edit"@) {
                json_str(json_get(input, "new_string"@))
            } else if tool_name == Some("Write"@) || tool_name == Some("NotebookEdit"@) {
                json_str(
                    match json_get(input, "content"@) {
                        Some(c) => Some(c),
                        None => json_get(input, "new_source"@),
                    },
                )
            } else if tool_name == Some("Bash"@) {
                json_str(json_get(input, "command"@))
            } else {
                None
            };
            match text {
                Some(t) => Some(ContentView::Inline(t)),
                None => None,
            }
        },
    }
}

/// What an `Edit` proposes is the text it writes: the string member
/// `new_string` of its input, whatever else the input holds (the text it
/// replaces, `old_string`, included); without a string `new_string` it
/// proposes no content.
pub proof fn lemma_edit_proposes_its_new_string(input: JsonValue, other: JsonValue)
    ensures
        proposal_content_spec(Some("Edit"@), Some(input)) == match json_get(input, "new_string"@) {
            Some(JsonValue::String(s)) => Some(ContentView::Inline(s@)),
            _ => None,
        },
        json_get(input, "new_string"@) == json_get(other, "new_string"@) ==> proposal_content_spec(
            Some("Edit"@),
            Some(input),
        ) == proposal_content_spec(Some("Edit"@), Some(other)),
{
}

/// What a `Write` or `NotebookEdit` proposes is its `content` member (or,
/// without one, its `new_source`), and what a `Bash` call proposes is its
/// `command`, each when it is a string; other tools propose no content.
pub proof fn lemma_other_tools_propose_their_text(name: Seq<char>, input: JsonValue)
    ensures
        (name == "Write"@ || name == "NotebookEdit"@) ==> proposal_content_spec(Some(name), Some(input)) == match (
        match json_get(input, "content"@) {
            Some(c) => Some(c),
            None => json_get(input, "new_source"@),
        }) {
            Some(JsonValue::String(s)) => Some(ContentView::Inline(s@)),
            _ => None,
        },
        name == "Bash"@ ==> proposal_content_spec(Some(name), Some(input)) == match json_get(input, "command"@) {
            Some(JsonValue::String(s)) => Some(ContentView::Inline(s@)),
            _ => None,
        },
        name != "Edit"@ && name != "Write"@ && name != "NotebookEdit"@ && name != "Bash"@ ==> proposal_content_spec(
            Some(name),
            Some(input),
        ) is None,
        proposal_content_spec(None, Some(input)) is None,
{
    reveal_strlit("Edit");
    reveal_strlit("Write");
    reveal_strlit("NotebookEdit");
    reveal_strlit("Bash");
    assert("Edit"@.len() != "Write"@.len());
    assert("Edit"@.len() != "NotebookEdit"@.len());
    assert("Edit"@[0] != "Bash"@[0]);
    assert("Write"@.len() != "Bash"@.len());
    assert("NotebookEdit"@.len() != "Bash"@.len());
}

/// `tool_use` blocks of an assistant message, as proposals.
pub open spec fn proposal_views(
    seq: usize,
    stream: StreamView,
    timestamp: Option<Seq<char>>,
    blocks: Seq<JsonValue>,
) -> Seq<EventView>
    decreases blocks.len(),
{
    if blocks.len() == 0 {
        Seq::empty()
    } else {
        let before = proposal_views(seq, stream, timestamp, blocks.drop_last());
        let block = blocks.last();
        if json_str(json_get(block, "type"@)) == Some("tool_use"@) {
            let tool_name = json_str(json_get(block, "name"@));
            let input = json_get(block, "input"@);
            before.push(
                EventView {
                    seq,
                    timestamp,
                    kind: ParseKind::ToolProposal,
                    file_path: json_str(json_get_opt(input, "file_path"@)),
                    content: proposal_content_spec(tool_name, input),
                    tool_ref: json_str(json_get(block, "id"@)),
                    tool_name,
                    stream,
                },
            )
        } else {
            before
        }
    }
}

/// The `text` of each item that has one.
pub open spec fn item_texts(items: Seq<JsonValue>) -> Seq<Seq<char>>
    decreases items.len(),
{
    if items.len() == 0 {
        Seq::empty()
    } else {
        let before = item_texts(items.drop_last());
        match json_str(json_get(items.last(), "text"@)) {
            Some(t) => before.push(t),
            None => before,
        }
    }
}

/// The text of a tool result: its string content, or its text items joined by newlines.
pub open spec fn result_text_spec(block: JsonValue) -> Option<Seq<char>> {
    match json_get(block, "content"@) {
        Some(JsonValue::String(t)) => Some(t@),
        Some(JsonValue::Array(items)) => if item_texts(items@).len() == 0 {
            None
        } else {
            Some(join(item_texts(items@), "\n"@))
        },
        _ => None,
    }
}

/// The marker the `claude_cli` transcript carries when the user refused an edit.
pub open spec fn denial_marker() -> Seq<char> {
    "new_string was NOT written"@
}

/// `tool_result` blocks of a user message, as results or denials.
pub open spec fn result_views(
    seq: usize,
    stream: StreamView,
    timestamp: Option<Seq<char>>,
    blocks: Seq<JsonValue>,
) -> Seq<EventView>
    decreases blocks.len(),
{
    if blocks.len() == 0 {
        Seq::empty()
    } else {
        let before = result_views(seq, stream, timestamp, blocks.drop_last());
        let block = blocks.last();
        if json_str(json_get(block, "type"@)) == Some("tool_result"@) {
            let text = result_text_spec(block);
            let denied = match text {
                Some(t) => contains_run(t, denial_marker()),
                None => false,
            };
            before.push(
                EventView {
                    seq,
                    timestamp,
                    kind: if denied {
                        ParseKind::PermissionDenial
                    } else {
                        ParseKind::ToolResult
                    },
                    file_path: None,
                    content: match text {
                        Some(t) => Some(ContentView::Inline(t)),
                        None => None,
                    },
                    tool_ref: json_str(json_get(block, "tool_use_id"@)),
                    tool_name: None,
                    stream,
                },
            )
        } else {
            before
        }
    }
}

/// The events one decoded payload line yields.
pub open spec fn line_views(seq: usize, stream: StreamView, value: JsonValue) -> Seq<EventView> {
    let timestamp = event_timestamp_spec(value);
    let event_type = json_str(json_get(value, "type"@));
    if event_type == Some("file-history-snapshot"@) {
        snapshot_views(seq, stream, timestamp, value)
    } else if event_type == Some("assistant"@) {
        match message_blocks(value) {
            Some(blocks) => proposal_views(seq, stream, timestamp, blocks),
            None => Seq::empty(),
        }
    } else if event_type == Some("user"@) {
        match message_blocks(value) {
            Some(blocks) => result_views(seq, stream, timestamp, blocks),
            None => Seq::empty(),
        }
    } else {
        Seq::empty()
    }
}

proof fn lemma_views_push(events: Seq<ParsedEvent>, e: ParsedEvent)
    ensures
        views(events.push(e)) =~= views(events).push(e@),
{
}

fn event_timestamp(value: &JsonValue) -> (r: Option<String>)
    ensures
        text_of(r) == event_timestamp_spec(*value),
{
    match get_str(Some(value), "timestamp") {
        Some(t) => Some(owned(t)),
        None => owned_opt(get_str(value.get("snapshot"), "timestamp")),
    }
}

fn copy_timestamp(t: &Option<String>) -> (r: Option<String>)
    ensures
        text_of(r) == text_of(*t),
{
    match t {
        Some(s) => Some(s.clone()),
        None => None,
    }
}

fn parse_snapshot_list(
    seq: usize,
    source_stream: &SourceStream,
    timestamp: &Option<String>,
    entries: &Vec<JsonValue>,
) -> (out: Vec<ParsedEvent>)
    ensures
        views(out@) == snapshot_list_views(seq, source_stream@, text_of(*timestamp), entries@),
{
    let mut out: Vec<ParsedEvent> = Vec::new();
    let mut i: usize = 0;
    while i < entries.len()
        invariant
            i <= entries.len(),
            views(out@) == snapshot_list_views(
                seq,
                source_stream@,
                text_of(*timestamp),
                entries@.take(i as int),
            ),
        decreases entries.len() - i,
    {
        let entry = &entries[i];
        proof {
            assert(entries@.take(i + 1).drop_last() =~= entries@.take(i as int));
        }
        match get_str(Some(entry), "filePath") {
            Some(file_path) => {
                let entry_timestamp = match get_str(Some(entry), "timestamp") {
                    Some(t) => Some(owned(t)),
                    None => copy_timestamp(timestamp),
                };
                let content = match get_str(Some(entry), "content") {
                    Some(c) => Some(ContentRef::Inline(owned(c))),
                    None => None,
                };
                let event = ParsedEvent {
                    seq,
                    timestamp: entry_timestamp,
                    kind: ParseKind::FileSnapshot,
                    file_path: Some(owned(file_path)),
                    content_or_ref: content,
                    tool_ref: None,
                    tool_name: None,
                    source_stream: source_stream.duplicate(),
                };
                proof {
                    lemma_views_push(out@, event);
                }
                out.push(event);
            },
            None => {},
        }
        i = i + 1;
    }
    proof {
        assert(entries@.take(entries.len() as int) =~= entries@);
    }
    out
}

fn parse_snapshot_map(
    seq: usize,
    source_stream: &SourceStream,
    timestamp: &Option<String>,
    entries: &Vec<(String, JsonValue)>,
) -> (out: Vec<ParsedEvent>)
    ensures
        views(out@) == snapshot_map_views(seq, source_stream@, text_of(*timestamp), entries@),
{
    let mut out: Vec<ParsedEvent> = Vec::new();
    let mut i: usize = 0;
    while i < entries.len()
        invariant
            i <= entries.len(),
            views(out@) == snapshot_map_views(
                seq,
                source_stream@,
                text_of(*timestamp),
                entries@.take(i as int),
            ),
        decreases entries.len() - i,
    {
        let (file_path, entry) = &entries[i];
        proof {
            assert(entries@.take(i + 1).drop_last() =~= entries@.take(i as int));
        }
        let entry_timestamp = match get_str(Some(entry), "backupTime") {
            Some(t) => Some(owned(t)),
            None => copy_timestamp(timestamp),
        };
        let version = match entry.get("version") {
            Some(v) => v.as_u64(),
            None => None,
        };
        let content = match get_str(Some(entry), "backupFileName") {
            Some(b) => Some(ContentRef::Sidecar { backup_file_name: owned(b), version }),
            None => None,
        };
        let event = ParsedEvent {
            seq,
            timestamp: entry_timestamp,
            kind: ParseKind::FileSnapshot,
            file_path: Some(file_path.clone()),
            content_or_ref: content,
            tool_ref: None,
            tool_name: None,
            source_stream: source_stream.duplicate(),
        };
        proof {
            lemma_views_push(out@, event);
        }
        out.push(event);
        i = i + 1;
    }
    proof {
        assert(entries@.take(entries.len() as int) =~= entries@);
    }
    out
}

fn parse_snapshot_events(
    seq: usize,
    source_stream: &SourceStream,
    timestamp: &Option<String>,
    value: &JsonValue,
) -> (out: Vec<ParsedEvent>)
    ensures
        views(out@) == snapshot_views(seq, source_stream@, text_of(*timestamp), *value),
{
    match get_opt(value.get("snapshot"), "trackedFileBackups") {
        Some(JsonValue::Array(entries)) => parse_snapshot_list(
            seq,
            source_stream,
            timestamp,
            entries,
        ),
        Some(JsonValue::Object(entries)) => parse_snapshot_map(
            seq,
            source_stream,
            timestamp,
            entries,
        ),
        _ => {
            proof {
                assert(views(Seq::<ParsedEvent>::empty()) =~= Seq::<EventView>::empty());
            }
            Vec::new()
        },
    }
}

fn tool_proposal_content(tool_name: Option<&str>, input: Option<&JsonValue>) -> (r: Option<
    ContentRef,
>)
    ensures
        match r {
            Some(c) => proposal_content_spec(
                match tool_name {
                    Some(t) => Some(t@),
                    None => None,
                },
                opt_deref(input),
            ) == Some(c@),
            None => proposal_content_spec(
                match tool_name {
                    Some(t) => Some(t@),
                    None => None,
                },
                opt_deref(input),
            ) is None,
        },
{
    let input = match input {
        Some(i) => i,
        None => {
            return None;
        },
    };
    let name = match tool_name {
        Some(n) => n,
        None => {
            return None;
        },
    };
    let text = if crate::text::str_eq(name, "Edit") {
        get_str(Some(input), "new_string")
    } else if crate::text::str_eq(name, "Write") || crate::text::str_eq(name, "NotebookEdit") {
        match input.get("content") {
            Some(c) => c.as_str(),
            None => get_str(Some(input), "new_source"),
        }
    } else if crate::text::str_eq(name, "Bash") {
        get_str(Some(input), "command")
    } else {
        None
    };
    match text {
        Some(t) => Some(ContentRef::Inline(owned(t))),
        None => None,
    }
}

fn parse_assistant_blocks(
    seq: usize,
    source_stream: &SourceStream,
    timestamp: &Option<String>,
    blocks: &Vec<JsonValue>,
) -> (out: Vec<ParsedEvent>)
    ensures
        views(out@) == proposal_views(seq, source_stream@, text_of(*timestamp), blocks@),
{
    let mut out: Vec<ParsedEvent> = Vec::new();
    let mut i: usize = 0;
    while i < blocks.len()
        invariant
            i <= blocks.len(),
            views(out@) == proposal_views(
                seq,
                source_stream@,
                text_of(*timestamp),
                blocks@.take(i as int),
            ),
        decreases blocks.len() - i,
    {
        let block = &blocks[i];
        proof {
            assert(blocks@.take(i + 1).drop_last() =~= blocks@.take(i as int));
        }
        let is_tool_use = match get_str(Some(block), "type") {
            Some(t) => crate::text::str_eq(t, "tool_use"),
            None => false,
        };
        if is_tool_use {
            let tool_name = get_str(Some(block), "name");
            let input = block.get("input");
            let event = ParsedEvent {
                seq,
                timestamp: copy_timestamp(timestamp),
                kind: ParseKind::ToolProposal,
                file_path: owned_opt(get_str(input, "file_path")),
                content_or_ref: tool_proposal_content(tool_name, input),
                tool_ref: owned_opt(get_str(Some(block), "id")),
                tool_name: owned_opt(tool_name),
                source_stream: source_stream.duplicate(),
            };
            proof {
                lemma_views_push(out@, event);
            }
            out.push(event);
        }
        i = i + 1;
    }
    proof {
        assert(blocks@.take(blocks.len() as int) =~= blocks@);
    }
    out
}

fn tool_result_text(block: &JsonValue) -> (r: Option<String>)
    ensures
        text_of(r) == result_text_spec(*block),
{
    match block.get("content") {
        Some(JsonValue::String(text)) => Some(text.clone()),
        Some(JsonValue::Array(items)) => {
            let mut parts: Vec<Vec<char>> = Vec::new();
            let mut i: usize = 0;
            while i < items.len()
                invariant
                    i <= items.len(),
                    crate::text::rows(parts@) == item_texts(items@.take(i as int)),
                decreases items.len() - i,
            {
                proof {
                    assert(items@.take(i + 1).drop_last() =~= items@.take(i as int));
                }
                match get_str(Some(&items[i]), "text") {
                    Some(t) => {
                        let ghost before = parts@;
                        parts.push(chars_of(t));
                        proof {
                            assert(crate::text::rows(parts@) =~= crate::text::rows(before).push(
                                t@,
                            ));
                        }
                    },
                    None => {},
                }
                i = i + 1;
            }
            proof {
                assert(items@.take(items.len() as int) =~= items@);
            }
            if parts.len() == 0 {
                None
            } else {
                let newline = chars_of("\n");
                let joined = join_chars(&parts, newline.as_slice());
                Some(string_from_chars(joined.as_slice()))
            }
        },
        _ => None,
    }
}

fn parse_user_blocks(
    seq: usize,
    source_stream: &SourceStream,
    timestamp: &Option<String>,
    blocks: &Vec<JsonValue>,
) -> (out: Vec<ParsedEvent>)
    ensures
        views(out@) == result_views(seq, source_stream@, text_of(*timestamp), blocks@),
{
    let mut out: Vec<ParsedEvent> = Vec::new();
    let mut i: usize = 0;
    let marker = chars_of("new_string was NOT written");
    while i < blocks.len()
        invariant
            i <= blocks.len(),
            marker@ == denial_marker(),
            views(out@) == result_views(
                seq,
                source_stream@,
                text_of(*timestamp),
                blocks@.take(i as int),
            ),
        decreases blocks.len() - i,
    {
        let block = &blocks[i];
        proof {
            assert(blocks@.take(i + 1).drop_last() =~= blocks@.take(i as int));
        }
        let is_result = match get_str(Some(block), "type") {
            Some(t) => crate::text::str_eq(t, "tool_result"),
            None => false,
        };
        if is_result {
            let text = tool_result_text(block);
            let denied = match &text {
                Some(t) => {
                    let tc = chars_of(t.as_str());
                    contains_chars(tc.as_slice(), marker.as_slice())
                },
                None => false,
            };
            let content = match text {
                Some(t) => Some(ContentRef::Inline(t)),
                None => None,
            };
            let event = ParsedEvent {
                seq,
                timestamp: copy_timestamp(timestamp),
                kind: if denied {
                    ParseKind::PermissionDenial
                } else {
                    ParseKind::ToolResult
                },
                file_path: None,
                content_or_ref: content,
                tool_ref: owned_opt(get_str(Some(block), "tool_use_id")),
                tool_name: None,
                source_stream: source_stream.duplicate(),
            };
            proof {
                lemma_views_push(out@, event);
            }
            out.push(event);
        }
        i = i + 1;
    }
    proof {
        assert(blocks@.take(blocks.len() as int) =~= blocks@);
    }
    out
}

/// The events of one decoded `claude_cli` payload line.
pub fn parse_claude_line(seq: usize, source_stream: &SourceStream, value: &JsonValue) -> (out: Vec<
    ParsedEvent,
>)
    ensures
        views(out@) == line_views(seq, source_stream@, *value),
{
    let timestamp = event_timestamp(value);
    let event_type = get_str(Some(value), "type");
    let (snapshot, assistant, user) = match event_type {
        Some(t) => (
            crate::text::str_eq(t, "file-history-snapshot"),
            crate::text::str_eq(t, "assistant"),
            crate::text::str_eq(t, "user"),
        ),
        None => (false, false, false),
    };
    proof {
        assert(views(Seq::<ParsedEvent>::empty()) =~= Seq::<EventView>::empty());
    }
    if snapshot {
        parse_snapshot_events(seq, source_stream, &timestamp, value)
    } else if assistant {
        match get_opt(value.get("message"), "content") {
            Some(JsonValue::Array(blocks)) => parse_assistant_blocks(
                seq,
                source_stream,
                &timestamp,
                blocks,
            ),
            _ => Vec::new(),
        }
    } else if user {
        match get_opt(value.get("message"), "content") {
            Some(JsonValue::Array(blocks)) => parse_user_blocks(
                seq,
                source_stream,
                &timestamp,
                blocks,
            ),
            _ => Vec::new(),
        }
    } else {
        Vec::new()
    }
}


/// A source-specific reader of session payload lines for taste extraction.
pub trait SessionEventParser {
    /// The session source this reader handles.
    fn source(&self) -> &'static str;

    /// The events of one raw payload line numbered `seq`, or the decoder's
    /// message when the line is not JSON.
    fn parse_line(&self, seq: usize, source_stream: &SourceStream, line: &[u8]) -> Result<
        Vec<ParsedEvent>,
        String,
    >;
}

/// The reader of `claude_cli` payloads, the only source today.
pub struct ClaudeSessionParser;

impl SessionEventParser for ClaudeSessionParser {
    fn source(&self) -> (r: &'static str)
        ensures
            r@ == "claude_cli"@,
    {
        "claude_cli"
    }

    fn parse_line(&self, seq: usize, source_stream: &SourceStream, line: &[u8]) -> (r: Result<
        Vec<ParsedEvent>,
        String,
    >)
        ensures
            match json_parse_result(line@) {
                Ok(value) => r is Ok && views(r->Ok_0@) == line_views(seq, source_stream@, value),
                Err(message) => r is Err && r->Err_0@ == message,
            },
    {
        match decode_json(line) {
            Ok(value) => Ok(parse_claude_line(seq, source_stream, &value)),
            Err(message) => Err(message),
        }
    }
}

/// The events of a whole stream of raw payload lines, numbered by line, or
/// the decoder's message for the first line that is not JSON.
pub open spec fn jsonl_views(stream: StreamView, lines: Seq<Vec<u8>>) -> Result<
    Seq<EventView>,
    Seq<char>,
>
    decreases lines.len(),
{
    if lines.len() == 0 {
        Ok(Seq::empty())
    } else {
        match jsonl_views(stream, lines.drop_last()) {
            Err(message) => Err(message),
            Ok(before) => match json_parse_result(lines.last()@) {
                Err(message) => Err(message),
                Ok(value) => Ok(before + line_views((lines.len() - 1) as usize, stream, value)),
            },
        }
    }
}

/// Parses every JSONL payload line of one stream, in order; the first line
/// that is not JSON fails the whole stream with the decoder's message.
pub fn parse_jsonl(source_stream: &SourceStream, lines: &[Vec<u8>]) -> (r: Result<
    Vec<ParsedEvent>,
    String,
>)
    ensures
        match r {
            Ok(events) => jsonl_views(source_stream@, lines@) == Ok::<Seq<EventView>, Seq<char>>(
                views(events@),
            ),
            Err(message) => jsonl_views(source_stream@, lines@) == Err::<Seq<EventView>, Seq<char>>(
                message@,
            ),
        },
{
    let parser = ClaudeSessionParser;
    let mut events: Vec<ParsedEvent> = Vec::new();
    let mut seq: usize = 0;
    proof {
        assert(lines@.take(0) =~= Seq::<Vec<u8>>::empty());
        assert(views(events@) =~= Seq::<EventView>::empty());
    }
    while seq < lines.len()
        invariant
            seq <= lines.len(),
            jsonl_views(source_stream@, lines@.take(seq as int)) == Ok::<
                Seq<EventView>,
                Seq<char>,
            >(views(events@)),
        decreases lines.len() - seq,
    {
        proof {
            assert(lines@.take(seq + 1).drop_last() =~= lines@.take(seq as int));
            assert(lines@.take(seq + 1).last() == lines@[seq as int]);
        }
        match parser.parse_line(seq, source_stream, lines[seq].as_slice()) {
            Err(message) => {
                proof {
                    lemma_jsonl_error_sticks(source_stream@, lines@, seq as int + 1);
                }
                return Err(message);
            },
            Ok(line_events) => {
                let mut line_events = line_events;
                let ghost before = events@;
                let ghost added = line_events@;
                events.append(&mut line_events);
                proof {
                    assert(views(events@) =~= views(before) + views(added));
                }
            },
        }
        seq = seq + 1;
    }
    proof {
        assert(lines@.take(lines.len() as int) =~= lines@);
    }
    Ok(events)
}

proof fn lemma_jsonl_error_sticks(stream: StreamView, lines: Seq<Vec<u8>>, n: int)
    requires
        0 < n <= lines.len(),
        jsonl_views(stream, lines.take(n)) is Err,
    ensures
        jsonl_views(stream, lines) == jsonl_views(stream, lines.take(n)),
    decreases lines.len() - n,
{
    if n < lines.len() {
        assert(lines.take(n + 1).drop_last() =~= lines.take(n));
        lemma_jsonl_error_sticks(stream, lines, n + 1);
    } else {
        assert(lines.take(n) =~= lines);
    }
}

// ---------------------------------------------------------------------------
// Merging streams
// ---------------------------------------------------------------------------
/// What events are ordered by first: their timestamp text, a missing one as empty.
pub open spec fn ts_key(e: ParsedEvent) -> Seq<char> {
    match e.timestamp {
        Some(t) => t@,
        None => Seq::empty(),
    }
}

/// `a` sorts strictly before `b`: earlier timestamp, or the same timestamp and a smaller seq.
pub open spec fn orders_before(a: ParsedEvent, b: ParsedEvent) -> bool {
    seq_lt(ts_key(a), ts_key(b)) || (ts_key(a) == ts_key(b) && a.seq < b.seq)
}

/// `a` and `b` tie on both sort keys.
pub open spec fn same_place(a: ParsedEvent, b: ParsedEvent) -> bool {
    ts_key(a) == ts_key(b) && a.seq == b.seq
}

/// `e` attributed to `stream`.
pub open spec fn with_stream(e: ParsedEvent, stream: SourceStream) -> ParsedEvent {
    ParsedEvent {
        seq: e.seq,
        timestamp: e.timestamp,
        kind: e.kind,
        file_path: e.file_path,
        content_or_ref: e.content_or_ref,
        tool_ref: e.tool_ref,
        tool_name: e.tool_name,
        source_stream: stream,
    }
}

/// `e` numbered `seq`.
pub open spec fn with_seq(e: ParsedEvent, seq: usize) -> ParsedEvent {
    ParsedEvent {
        seq,
        timestamp: e.timestamp,
        kind: e.kind,
        file_path: e.file_path,
        content_or_ref: e.content_or_ref,
        tool_ref: e.tool_ref,
        tool_name: e.tool_name,
        source_stream: e.source_stream,
    }
}

/// All events of all streams, stream after stream, each attributed to its stream.
pub open spec fn tagged(streams: Seq<(SourceStream, Vec<ParsedEvent>)>) -> Seq<ParsedEvent>
    decreases streams.len(),
{
    if streams.len() == 0 {
        Seq::empty()
    } else {
        let (stream, events) = streams.last();
        tagged(streams.drop_last()) + events@.map_values(|e: ParsedEvent| with_stream(e, stream))
    }
}

/// `out` holds the events of `input` rearranged: `out[k]` is `input[perm[k]]`,
/// and no input event is used twice.
pub open spec fn arrangement(input: Seq<ParsedEvent>, out: Seq<ParsedEvent>, perm: Seq<int>) -> bool {
    &&& out.len() == input.len()
    &&& perm.len() == out.len()
    &&& forall|k: int| 0 <= k < out.len() ==> 0 <= #[trigger] perm[k] < input.len() && out[k] == input[perm[k]]
    &&& forall|k: int, l: int| 0 <= k < l < out.len() ==> perm[k] != perm[l]
}

/// Neighbours are in order, and neighbours that tie keep their input order.
pub open spec fn stably_sorted(out: Seq<ParsedEvent>, perm: Seq<int>) -> bool {
    forall|k: int|
        0 <= k < out.len() - 1 ==> !orders_before(#[trigger] out[k + 1], out[k]) && (same_place(
            out[k],
            out[k + 1],
        ) ==> perm[k] < perm[k + 1])
}

/// `out` is `input` sorted stably by timestamp, then seq.
pub open spec fn is_stable_sort(input: Seq<ParsedEvent>, out: Seq<ParsedEvent>) -> bool {
    exists|perm: Seq<int>| arrangement(input, out, perm) && stably_sorted(out, perm)
}

/// `out` is `events` with each event numbered by its position.
pub open spec fn renumbered(events: Seq<ParsedEvent>, out: Seq<ParsedEvent>) -> bool {
    &&& out.len() == events.len()
    &&& forall|k: int| 0 <= k < out.len() ==> #[trigger] out[k] == with_seq(events[k], k as usize)
}

/// `out` is the merged, renumbered timeline of `streams`.
pub open spec fn merged(streams: Seq<(SourceStream, Vec<ParsedEvent>)>, out: Seq<ParsedEvent>) -> bool {
    exists|sorted: Seq<ParsedEvent>| is_stable_sort(tagged(streams), sorted) && renumbered(sorted, out)
}

/// Strictly-before is asymmetric, and never holds between two events that tie.
pub proof fn lemma_orders_before_strict(a: ParsedEvent, b: ParsedEvent)
    ensures
        !orders_before(a, a),
        orders_before(a, b) ==> !orders_before(b, a) && !same_place(a, b) && !same_place(b, a),
        !orders_before(a, b) && !orders_before(b, a) ==> same_place(a, b),
{
    crate::text::lemma_seq_lt_strict(ts_key(a), ts_key(b));
}

/// The sort key of an event as text (`""` when it has no timestamp).
pub fn timestamp_key(event: &ParsedEvent) -> (r: String)
    ensures
        r@ == ts_key(*event),
{
    match &event.timestamp {
        Some(t) => t.clone(),
        None => String::new(),
    }
}

fn event_orders_before(a: &ParsedEvent, b: &ParsedEvent) -> (r: bool)
    ensures
        r == orders_before(*a, *b),
{
    let ka = timestamp_key(a);
    let kb = timestamp_key(b);
    let ca = chars_of(ka.as_str());
    let cb = chars_of(kb.as_str());
    let o = chars_order(ca.as_slice(), cb.as_slice());
    o < 0 || (o == 0 && a.seq < b.seq)
}

/// Moves every event of every stream into one list, attributing each to its stream.
fn tag_streams(streams: Vec<(SourceStream, Vec<ParsedEvent>)>) -> (out: Vec<ParsedEvent>)
    ensures
        out@ == tagged(streams@),
{
    let ghost all = streams@;
    let mut rest = streams;
    let mut out: Vec<ParsedEvent> = Vec::new();
    let ghost mut done: int = 0;
    while rest.len() > 0
        invariant
            0 <= done <= all.len(),
            rest@ == all.skip(done),
            out@ == tagged(all.take(done)),
        decreases rest.len(),
    {
        let (stream, events) = rest.remove(0);
        let ghost evs = events@;
        let mut evs_rest = events;
        let ghost mut j: int = 0;
        while evs_rest.len() > 0
            invariant
                0 <= j <= evs.len(),
                evs_rest@ == evs.skip(j),
                out@ == tagged(all.take(done)) + evs.take(j).map_values(
                    |e: ParsedEvent| with_stream(e, stream),
                ),
            decreases evs_rest.len(),
        {
            let mut e = evs_rest.remove(0);
            e.source_stream = stream.duplicate();
            out.push(e);
            proof {
                assert(evs.take(j + 1).map_values(|e: ParsedEvent| with_stream(e, stream))
                    =~= evs.take(j).map_values(|e: ParsedEvent| with_stream(e, stream)).push(
                    with_stream(evs[j], stream),
                ));
                j = j + 1;
                assert(evs.skip(j) =~= evs.skip(j - 1).drop_first());
            }
        }
        proof {
            assert(evs.take(j) =~= evs);
            assert(all.take(done + 1).drop_last() =~= all.take(done));
            assert(all.take(done + 1).last() == all[done]);
            done = done + 1;
            assert(all.skip(done) =~= all.skip(done - 1).drop_first());
        }
    }
    proof {
        assert(all.take(done) =~= all);
    }
    out
}

/// Where `e` goes in sorted `out`: after every event it does not sort before.
fn insert_in_order(out: &mut Vec<ParsedEvent>, e: ParsedEvent) -> (p: usize)
    ensures
        p <= old(out).len(),
        final(out)@ == old(out)@.insert(p as int, e),
        p > 0 ==> !orders_before(e, old(out)@[p - 1]),
        forall|k: int| p <= k < old(out).len() ==> orders_before(e, #[trigger] old(out)@[k]),
{
    let mut p = out.len();
    while p > 0 && event_orders_before(&e, &out[p - 1])
        invariant
            p <= out.len(),
            forall|k: int| p <= k < out.len() ==> orders_before(e, #[trigger] out@[k]),
        decreases p,
    {
        p = p - 1;
    }
    out.insert(p, e);
    p
}

proof fn lemma_insert_keeps_stable_order(
    input: Seq<ParsedEvent>,
    out: Seq<ParsedEvent>,
    perm: Seq<int>,
    i: int,
    p: int,
)
    requires
        0 <= i < input.len(),
        arrangement(input.take(i), out, perm),
        stably_sorted(out, perm),
        0 <= p <= out.len(),
        p > 0 ==> !orders_before(input[i], out[p - 1]),
        forall|k: int| p <= k < out.len() ==> orders_before(input[i], #[trigger] out[k]),
    ensures
        arrangement(input.take(i + 1), out.insert(p, input[i]), perm.insert(p, i)),
        stably_sorted(out.insert(p, input[i]), perm.insert(p, i)),
{
    let e = input[i];
    let out2 = out.insert(p, e);
    let perm2 = perm.insert(p, i);
    let inp = input.take(i + 1);
    out.insert_ensures(p, e);
    perm.insert_ensures(p, i);
    assert forall|k: int| 0 <= k < out2.len() implies 0 <= #[trigger] perm2[k] < inp.len() && out2[k]
        == inp[perm2[k]] by {
        if k < p {
            assert(perm2[k] == perm[k]);
            assert(out[k] == input.take(i)[perm[k]]);
        } else if k > p {
            assert(perm2[k] == perm[k - 1]);
            assert(out[k - 1] == input.take(i)[perm[k - 1]]);
        }
    }
    assert forall|k: int, l: int| 0 <= k < l < out2.len() implies perm2[k] != perm2[l] by {
        if k < p && l < p {
        } else if k > p && l > p {
            assert(perm2[k] == perm[k - 1] && perm2[l] == perm[l - 1]);
        } else if k < p && l > p {
            assert(perm2[k] == perm[k] && perm2[l] == perm[l - 1]);
            if perm[k] == perm[l - 1] {
                assert(k < l - 1);
            }
        } else if k == p {
            assert(perm2[l] == perm[l - 1]);
            assert(0 <= perm[l - 1] < input.take(i).len());
        } else {
            assert(perm2[k] == perm[k]);
            assert(0 <= perm[k] < input.take(i).len());
        }
    }
    assert forall|k: int| 0 <= k < out2.len() - 1 implies !orders_before(#[trigger] out2[k + 1], out2[k])
        && (same_place(out2[k], out2[k + 1]) ==> perm2[k] < perm2[k + 1]) by {
        if k + 1 < p {
            assert(out2[k] == out[k] && out2[k + 1] == out[k + 1]);
        } else if k + 1 == p {
            assert(out2[k] == out[k] && out2[k + 1] == e);
            assert(0 <= perm[k] < input.take(i).len());
            lemma_orders_before_strict(e, out[k]);
            lemma_orders_before_strict(out[k], e);
        } else if k == p {
            assert(out2[k] == e && out2[k + 1] == out[k]);
            lemma_orders_before_strict(e, out[k]);
        } else {
            assert(out2[k] == out[k - 1] && out2[k + 1] == out[k]);
            assert(perm2[k] == perm[k - 1] && perm2[k + 1] == perm[k]);
        }
    }
}

/// Sorts events by timestamp, then seq, keeping the input order of ties.
pub fn stable_sort_events(events: Vec<ParsedEvent>) -> (out: Vec<ParsedEvent>)
    ensures
        is_stable_sort(events@, out@),
{
    let ghost input = events@;
    let mut rest = events;
    let mut out: Vec<ParsedEvent> = Vec::new();
    let ghost mut perm: Seq<int> = Seq::empty();
    let ghost mut i: int = 0;
    while rest.len() > 0
        invariant
            0 <= i <= input.len(),
            rest@ == input.skip(i),
            arrangement(input.take(i), out@, perm),
            stably_sorted(out@, perm),
        decreases rest.len(),
    {
        let e = rest.remove(0);
        let ghost before = out@;
        let p = insert_in_order(&mut out, e);
        proof {
            assert(e == input[i]);
            lemma_insert_keeps_stable_order(input, before, perm, i, p as int);
            perm = perm.insert(p as int, i);
            i = i + 1;
            assert(input.skip(i) =~= input.skip(i - 1).drop_first());
        }
    }
    proof {
        assert(input.take(i) =~= input);
    }
    out
}

/// Numbers each event by its position.
pub fn renumber_seq(events: Vec<ParsedEvent>) -> (out: Vec<ParsedEvent>)
    ensures
        renumbered(events@, out@),
{
    let ghost input = events@;
    let mut rest = events;
    let mut out: Vec<ParsedEvent> = Vec::new();
    while rest.len() > 0
        invariant
            out.len() <= input.len(),
            rest@ == input.skip(out.len() as int),
            forall|k: int| 0 <= k < out.len() ==> #[trigger] out@[k] == with_seq(input[k], k as usize),
        decreases rest.len(),
    {
        let mut e = rest.remove(0);
        e.seq = out.len();
        let ghost n = out.len() as int;
        out.push(e);
        proof {
            assert(input.skip(n + 1) =~= input.skip(n).drop_first());
        }
    }
    out
}

/// Merges a parent stream and its subagent streams into one timeline: every
/// event attributed to its stream, ordered by timestamp then seq (ties keep
/// their stream order), then numbered by position.
pub fn merge_streams(streams: Vec<(SourceStream, Vec<ParsedEvent>)>) -> (out: Vec<ParsedEvent>)
    ensures
        merged(streams@, out@),
{
    let ghost all = streams@;
    let flat = tag_streams(streams);
    let sorted = stable_sort_events(flat);
    let ghost s = sorted@;
    let out = renumber_seq(sorted);
    proof {
        assert(is_stable_sort(tagged(all), s) && renumbered(s, out@));
    }
    out
}

/// A merged timeline holds exactly as many events as its streams, each one an
/// event of some stream attributed to that stream, none used twice.
pub proof fn lemma_merge_keeps_every_event(
    streams: Seq<(SourceStream, Vec<ParsedEvent>)>,
    out: Seq<ParsedEvent>,
)
    requires
        merged(streams, out),
    ensures
        out.len() == tagged(streams).len(),
        exists|perm: Seq<int>|
            {
                &&& perm.len() == out.len()
                &&& forall|k: int|
                    0 <= k < out.len() ==> 0 <= #[trigger] perm[k] < out.len() && out[k] == with_seq(
                        tagged(streams)[perm[k]],
                        k as usize,
                    )
                &&& forall|k: int, l: int| 0 <= k < l < out.len() ==> perm[k] != perm[l]
            },
{
    let sorted = choose|sorted: Seq<ParsedEvent>|
        is_stable_sort(tagged(streams), sorted) && renumbered(sorted, out);
    let perm = choose|perm: Seq<int>|
        arrangement(tagged(streams), sorted, perm) && stably_sorted(sorted, perm);
    assert forall|k: int| 0 <= k < out.len() implies 0 <= #[trigger] perm[k] < out.len() && out[k]
        == with_seq(tagged(streams)[perm[k]], k as usize) by {
        assert(out[k] == with_seq(sorted[k], k as usize));
    }
}

/// In a merged timeline, timestamps never decrease from one event to the next,
/// and each event's seq is its position.
pub proof fn lemma_merge_orders_by_timestamp(
    streams: Seq<(SourceStream, Vec<ParsedEvent>)>,
    out: Seq<ParsedEvent>,
)
    requires
        merged(streams, out),
    ensures
        forall|k: int| 0 <= k < out.len() - 1 ==> !seq_lt(#[trigger] ts_key(out[k + 1]), ts_key(out[k])),
        forall|k: int| 0 <= k < out.len() ==> #[trigger] out[k].seq == k as usize,
{
    let sorted = choose|sorted: Seq<ParsedEvent>|
        is_stable_sort(tagged(streams), sorted) && renumbered(sorted, out);
    let perm = choose|perm: Seq<int>|
        arrangement(tagged(streams), sorted, perm) && stably_sorted(sorted, perm);
    assert forall|k: int| 0 <= k < out.len() - 1 implies !seq_lt(#[trigger] ts_key(out[k + 1]), ts_key(out[k])) by {
        assert(out[k] == with_seq(sorted[k], k as usize));
        assert(out[k + 1] == with_seq(sorted[k + 1], (k + 1) as usize));
        assert(!orders_before(sorted[k + 1], sorted[k]));
    }
    assert forall|k: int| 0 <= k < out.len() implies #[trigger] out[k].seq == k as usize by {
        assert(out[k] == with_seq(sorted[k], k as usize));
    }
}

/// Events with the same timestamp keep the order of their seq; events that tie
/// on both keep the order in which their streams listed them.
pub proof fn lemma_merge_ties_keep_order(
    streams: Seq<(SourceStream, Vec<ParsedEvent>)>,
    out: Seq<ParsedEvent>,
)
    requires
        merged(streams, out),
    ensures
        exists|sorted: Seq<ParsedEvent>, perm: Seq<int>|
            {
                &&& arrangement(tagged(streams), sorted, perm)
                &&& renumbered(sorted, out)
                &&& forall|k: int|
                    0 <= k < sorted.len() - 1 && ts_key(sorted[k]) == ts_key(#[trigger] sorted[k + 1])
                        ==> sorted[k].seq <= sorted[k + 1].seq
                &&& forall|k: int|
                    0 <= k < sorted.len() - 1 && same_place(sorted[k], #[trigger] sorted[k + 1])
                        ==> perm[k] < perm[k + 1]
            },
{
    let sorted = choose|sorted: Seq<ParsedEvent>|
        is_stable_sort(tagged(streams), sorted) && renumbered(sorted, out);
    let perm = choose|perm: Seq<int>|
        arrangement(tagged(streams), sorted, perm) && stably_sorted(sorted, perm);
    assert forall|k: int|
        0 <= k < sorted.len() - 1 && ts_key(sorted[k]) == ts_key(#[trigger] sorted[k + 1]) implies sorted[k].seq
        <= sorted[k + 1].seq by {
        assert(!orders_before(sorted[k + 1], sorted[k]));
    }
    assert forall|k: int|
        0 <= k < sorted.len() - 1 && same_place(sorted[k], #[trigger] sorted[k + 1]) implies perm[k] < perm[k + 1] by {
        assert(!orders_before(sorted[k + 1], sorted[k]));
    }
}

} // verus!

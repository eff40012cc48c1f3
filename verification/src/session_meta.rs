//! Session metadata and session identity read from transcript headers.
//!
//! Decoding a header line from JSON happens outside the library; these
//! functions take the decoded fields and decide what they say about a session:
//! its working directory, its first and last activity, and its id.
use vstd::prelude::*;

use crate::civil::{civil_from_days, civil_spec, lemma_civil_date_ranges};
use crate::error::JottraceError;
use crate::json::{
    decode_json, encode_json_string, int_json, int_value, json_get, json_i64, json_parse_result,
    json_str, json_text, obj_members, opt_deref, opt_int_json, opt_int_value, push_member, text_is,
    text_value, JsonValue,
};
use crate::ingest::{is_uuid, is_uuid_stem, CLAUDE_LOCAL_AGENT_SOURCE, CODEX_SOURCE};
use crate::paths::{components, dot_dot, file_stem, path_components, stem_chars};
use crate::text::{
    chars_eq, chars_of, chars_order, opt_view, owned, push_str, push_zero_padded, rows, seq_lt,
    slice_chars, str_eq, string_from_chars, trim, trimmed, zero_padded,
};

verus! {

// ---------------------------------------------------------------------------
// Session metadata
// ---------------------------------------------------------------------------
/// What a pass learned about a session: its working directory and the first
/// and last timestamps seen.
#[derive(Debug, Clone, PartialEq, Eq)]
pub struct ParsedMetadata {
    pub cwd: Option<String>,
    pub started_at: Option<String>,
    pub ended_at: Option<String>,
}

pub struct MetadataView {
    pub cwd: Option<Seq<char>>,
    pub started_at: Option<Seq<char>>,
    pub ended_at: Option<Seq<char>>,
}

impl View for ParsedMetadata {
    type V = MetadataView;

    open spec fn view(&self) -> MetadataView {
        MetadataView {
            cwd: opt_view(self.cwd),
            started_at: opt_view(self.started_at),
            ended_at: opt_view(self.ended_at),
        }
    }
}

/// `slot` unless it is empty, in which case `value`.
pub open spec fn or_else(slot: Option<Seq<char>>, value: Option<Seq<char>>) -> Option<Seq<char>> {
    match slot {
        Some(s) => Some(s),
        None => value,
    }
}

/// Keeps every field that is set and takes the others from `other`.
pub open spec fn filled_from(m: MetadataView, other: MetadataView) -> MetadataView {
    MetadataView {
        cwd: or_else(m.cwd, other.cwd),
        started_at: or_else(m.started_at, other.started_at),
        ended_at: or_else(m.ended_at, other.ended_at),
    }
}

/// Widens the activity window to include `ts`: it becomes the start when it
/// sorts before the current start (or there is none), and the end likewise.
pub open spec fn with_timestamp(m: MetadataView, ts: Seq<char>) -> MetadataView {
    MetadataView {
        cwd: m.cwd,
        started_at: match m.started_at {
            Some(current) => if seq_lt(ts, current) {
                Some(ts)
            } else {
                Some(current)
            },
            None => Some(ts),
        },
        ended_at: match m.ended_at {
            Some(current) => if seq_lt(current, ts) {
                Some(ts)
            } else {
                Some(current)
            },
            None => Some(ts),
        },
    }
}

fn fill_missing(slot: Option<String>, value: Option<String>) -> (r: Option<String>)
    ensures
        opt_view(r) == or_else(opt_view(slot), opt_view(value)),
{
    match slot {
        Some(s) => Some(s),
        None => value,
    }
}

fn earlier(ts: &str, current: &Option<String>) -> (r: bool)
    ensures
        r == match current {
            Some(c) => seq_lt(ts@, c@),
            None => true,
        },
{
    match current {
        Some(c) => {
            let a = chars_of(ts);
            let b = chars_of(c.as_str());
            chars_order(a.as_slice(), b.as_slice()) < 0
        },
        None => true,
    }
}

fn later(ts: &str, current: &Option<String>) -> (r: bool)
    ensures
        r == match current {
            Some(c) => seq_lt(c@, ts@),
            None => true,
        },
{
    match current {
        Some(c) => {
            let a = chars_of(ts);
            let b = chars_of(c.as_str());
            chars_order(a.as_slice(), b.as_slice()) > 0
        },
        None => true,
    }
}

impl ParsedMetadata {
    /// Metadata that knows nothing yet.
    pub fn empty() -> (r: Self)
        ensures
            r@ == (MetadataView { cwd: None, started_at: None, ended_at: None }),
    {
        ParsedMetadata { cwd: None, started_at: None, ended_at: None }
    }

    /// Fills every unknown field from `other`.
    pub fn fill_missing_from(&mut self, other: ParsedMetadata)
        ensures
            final(self)@ == filled_from(old(self)@, other@),
    {
        let cwd = fill_missing(self.cwd.take(), other.cwd);
        let started_at = fill_missing(self.started_at.take(), other.started_at);
        let ended_at = fill_missing(self.ended_at.take(), other.ended_at);
        self.cwd = cwd;
        self.started_at = started_at;
        self.ended_at = ended_at;
    }
}

/// Widens the activity window of `metadata` to include `ts` (see `with_timestamp`).
pub fn capture_metadata_timestamp(metadata: &mut ParsedMetadata, ts: &str)
    ensures
        final(metadata)@ == with_timestamp(old(metadata)@, ts@),
{
    let replace_started = earlier(ts, &metadata.started_at);
    let replace_ended = later(ts, &metadata.ended_at);
    if replace_started {
        metadata.started_at = Some(owned(ts));
    }
    if replace_ended {
        metadata.ended_at = Some(owned(ts));
    }
}

// ---------------------------------------------------------------------------
// Line headers
// ---------------------------------------------------------------------------
/// The members of a transcript line that ingestion reads; a member that is
/// absent or `null` is `None`. `snapshot_timestamp` is `snapshot.timestamp`
/// and the `payload_*` fields are the members of `payload`.
#[derive(Debug, Clone, PartialEq, Eq)]
pub struct EventHeader {
    pub id: Option<String>,
    pub event_type: Option<String>,
    pub cwd: Option<String>,
    pub timestamp: Option<String>,
    pub audit_timestamp: Option<String>,
    pub snapshot_timestamp: Option<String>,
    pub payload_id: Option<String>,
    pub payload_cwd: Option<String>,
    pub payload_timestamp: Option<String>,
}

/// The timestamp of a line: its own, else its snapshot's, else the audit
/// timestamp for local-agent audits and the payload's for Codex sessions.
pub open spec fn event_timestamp_spec(source: Seq<char>, h: EventHeader) -> Option<Seq<char>> {
    if h.timestamp is Some {
        opt_view(h.timestamp)
    } else if h.snapshot_timestamp is Some {
        opt_view(h.snapshot_timestamp)
    } else if source == CLAUDE_LOCAL_AGENT_SOURCE@ {
        opt_view(h.audit_timestamp)
    } else if source == CODEX_SOURCE@ {
        opt_view(h.payload_timestamp)
    } else {
        None
    }
}

/// What one line adds to the metadata: a working directory where none is
/// known (for Codex also the payload's), and its timestamp.
pub open spec fn captured(m: MetadataView, source: Seq<char>, h: EventHeader) -> MetadataView {
    let cwd1 = or_else(m.cwd, opt_view(h.cwd));
    let cwd2 = if source == CODEX_SOURCE@ {
        or_else(cwd1, opt_view(h.payload_cwd))
    } else {
        cwd1
    };
    let m2 = MetadataView { cwd: cwd2, started_at: m.started_at, ended_at: m.ended_at };
    match event_timestamp_spec(source, h) {
        Some(ts) => with_timestamp(m2, ts),
        None => m2,
    }
}

fn copy_opt(o: &Option<String>) -> (r: Option<String>)
    ensures
        opt_view(r) == opt_view(*o),
{
    match o {
        Some(s) => Some(owned(s.as_str())),
        None => None,
    }
}

/// The timestamp of a line (see `event_timestamp_spec`).
pub fn event_timestamp(source: &str, header: &EventHeader) -> (r: Option<String>)
    ensures
        opt_view(r) == event_timestamp_spec(source@, *header),
{
    if header.timestamp.is_some() {
        copy_opt(&header.timestamp)
    } else if header.snapshot_timestamp.is_some() {
        copy_opt(&header.snapshot_timestamp)
    } else if str_eq(source, CLAUDE_LOCAL_AGENT_SOURCE) {
        copy_opt(&header.audit_timestamp)
    } else if str_eq(source, CODEX_SOURCE) {
        copy_opt(&header.payload_timestamp)
    } else {
        None
    }
}

/// Folds one line header into the metadata (see `captured`).
pub fn capture_metadata(metadata: &mut ParsedMetadata, source: &str, header: &EventHeader)
    ensures
        final(metadata)@ == captured(old(metadata)@, source@, *header),
{
    if metadata.cwd.is_none() {
        metadata.cwd = copy_opt(&header.cwd);
    }
    if str_eq(source, CODEX_SOURCE) && metadata.cwd.is_none() {
        metadata.cwd = copy_opt(&header.payload_cwd);
    }
    match event_timestamp(source, header) {
        Some(ts) => capture_metadata_timestamp(metadata, ts.as_str()),
        None => {},
    }
}

// ---------------------------------------------------------------------------
// Timestamps given as numbers
// ---------------------------------------------------------------------------
/// Epoch milliseconds of an integer timestamp: values of magnitude 10^10 and
/// above are taken as milliseconds already, smaller ones as seconds.
pub open spec fn integer_millis_spec(value: int) -> Option<int> {
    let magnitude = if value < 0 {
        -value
    } else {
        value
    };
    if value == i128::MIN {
        None
    } else if magnitude >= 10_000_000_000 {
        Some(value)
    } else {
        Some(value * 1000)
    }
}

pub fn integer_timestamp_to_epoch_millis(value: i128) -> (r: Option<i128>)
    ensures
        match r {
            Some(v) => integer_millis_spec(value as int) == Some(v as int),
            None => integer_millis_spec(value as int) is None,
        },
{
    if value == i128::MIN {
        return None;
    }
    let magnitude = if value < 0 {
        -value
    } else {
        value
    };
    if magnitude >= 10_000_000_000 {
        Some(value)
    } else {
        Some(value * 1000)
    }
}

/// `YYYY-MM-DDTHH:MM:SS.mmmZ` for epoch milliseconds, for years 0 to 9999.
pub open spec fn utc_iso_spec(epoch_millis: int) -> Option<Seq<char>> {
    let seconds = epoch_millis / 1000;
    let millisecond = epoch_millis % 1000;
    let days = seconds / 86400;
    let second_of_day = seconds % 86400;
    let (year, month, day) = civil_spec(days);
    if 0 <= year <= 9999 {
        Some(
            zero_padded(year as nat, 4) + "-"@ + zero_padded(month as nat, 2) + "-"@ + zero_padded(
                day as nat,
                2,
            ) + "T"@ + zero_padded((second_of_day / 3600) as nat, 2) + ":"@ + zero_padded(
                ((second_of_day % 3600) / 60) as nat,
                2,
            ) + ":"@ + zero_padded((second_of_day % 60) as nat, 2) + "."@ + zero_padded(
                millisecond as nat,
                3,
            ) + "Z"@,
        )
    } else {
        None
    }
}

/// Floor division and remainder by a positive divisor.
fn div_euclid(a: i128, b: i128) -> (r: (i128, i128))
    requires
        b > 0,
    ensures
        r.0 as int == (a as int) / (b as int),
        r.1 as int == (a as int) % (b as int),
{
    if a >= 0 {
        (a / b, a % b)
    } else {
        let p: i128 = -(a + 1);
        let pq = p / b;
        let pr = p % b;
        proof {
            vstd::arithmetic::div_mod::lemma_fundamental_div_mod(p as int, b as int);
            assert(0 <= pr < b);
            assert(0 <= pq <= p) by (nonlinear_arith)
                requires
                    p >= 0,
                    b > 0,
                    pq == p / b,
            ;
            assert(a as int == (-pq - 1) * b + (b - 1 - pr)) by (nonlinear_arith)
                requires
                    p as int == b * pq + pr,
                    p == -(a + 1),
            ;
            vstd::arithmetic::div_mod::lemma_fundamental_div_mod_converse(
                a as int,
                b as int,
                -pq - 1,
                b - 1 - pr,
            );
        }
        (-pq - 1, b - 1 - pr)
    }
}

/// The UTC rendering of epoch milliseconds (see `utc_iso_spec`); `None` for
/// dates outside years 0 to 9999.
pub fn epoch_millis_to_utc_iso(epoch_millis: i128) -> (r: Option<String>)
    ensures
        opt_view(r) == utc_iso_spec(epoch_millis as int),
{
    let (seconds, millisecond) = div_euclid(epoch_millis, 1000);
    let (days, second_of_day) = div_euclid(seconds, 86400);
    proof {
        assert(days >= i128::MIN / 86400000 - 1) by (nonlinear_arith)
            requires
                days as int == (seconds as int) / 86400,
                seconds as int == (epoch_millis as int) / 1000,
                epoch_millis >= i128::MIN,
        ;
        lemma_civil_date_ranges(days as int);
    }
    let ymd = civil_from_days(days);
    let (year, month, day) = match ymd {
        Some(t) => t,
        None => {
            return None;
        },
    };
    if year < 0 || year > 9999 {
        return None;
    }
    let mut out: Vec<char> = Vec::new();
    push_zero_padded(&mut out, year as u64, 4);
    push_str(&mut out, "-");
    push_zero_padded(&mut out, month as u64, 2);
    push_str(&mut out, "-");
    push_zero_padded(&mut out, day as u64, 2);
    push_str(&mut out, "T");
    push_zero_padded(&mut out, (second_of_day / 3600) as u64, 2);
    push_str(&mut out, ":");
    push_zero_padded(&mut out, ((second_of_day % 3600) / 60) as u64, 2);
    push_str(&mut out, ":");
    push_zero_padded(&mut out, (second_of_day % 60) as u64, 2);
    push_str(&mut out, ".");
    push_zero_padded(&mut out, millisecond as u64, 3);
    push_str(&mut out, "Z");
    Some(string_from_chars(out.as_slice()))
}

/// A timestamp member of a local-agent metadata file, as decoded: text, an
/// integer, a fractional number (carrying the epoch milliseconds it rounds to,
/// where it fits), or another kind of value.
#[derive(Debug, Clone, PartialEq, Eq)]
pub enum TimestampValue {
    Text(String),
    Integer(i128),
    Fractional(Option<i128>),
    Other,
}

pub open spec fn out_of_range_message(field: Seq<char>) -> Seq<char> {
    "local-agent "@ + field + " timestamp is outside supported range"@
}

pub open spec fn wrong_kind_message(field: Seq<char>) -> Seq<char> {
    "local-agent "@ + field + " timestamp must be a string or number"@
}

/// The timestamp text for epoch milliseconds, if there are any and they are in range.
pub open spec fn millis_text(millis: Option<int>) -> Option<Seq<char>> {
    match millis {
        Some(ms) => utc_iso_spec(ms),
        None => None,
    }
}

pub open spec fn is_meta_error(r: Result<Option<String>, JottraceError>, path: Seq<char>, message: Seq<char>) -> bool {
    r is Err && r->Err_0 is InvalidSessionMeta && r->Err_0->InvalidSessionMeta_path@ == path
        && r->Err_0->InvalidSessionMeta_message@ == message
}

fn meta_error(path: &str, message: Vec<char>) -> (e: JottraceError)
    ensures
        e is InvalidSessionMeta,
        e->InvalidSessionMeta_path@ == path@,
        e->InvalidSessionMeta_message@ == message@,
{
    JottraceError::InvalidSessionMeta { path: owned(path), message: string_from_chars(message.as_slice()) }
}

fn field_message(lead: &str, field: &str, tail: &str) -> (r: Vec<char>)
    ensures
        r@ == lead@ + field@ + tail@,
{
    let mut out: Vec<char> = Vec::new();
    push_str(&mut out, lead);
    push_str(&mut out, field);
    push_str(&mut out, tail);
    proof {
        assert(out@ =~= lead@ + field@ + tail@);
    }
    out
}

/// A local-agent metadata timestamp as text: text is kept, numbers are read as
/// seconds or milliseconds since the epoch and rendered in UTC.
pub fn metadata_timestamp(path: &str, field: &str, value: Option<&TimestampValue>) -> (r: Result<
    Option<String>,
    JottraceError,
>)
    ensures
        match value {
            None => r == Ok::<Option<String>, JottraceError>(None),
            Some(TimestampValue::Text(s)) => r is Ok && opt_view(r->Ok_0) == Some(s@),
            Some(TimestampValue::Integer(v)) => match millis_text(integer_millis_spec(v as int)) {
                Some(t) => r is Ok && opt_view(r->Ok_0) == Some(t),
                None => is_meta_error(r, path@, out_of_range_message(field@)),
            },
            Some(TimestampValue::Fractional(m)) => match millis_text(
                match m {
                    Some(ms) => Some(ms as int),
                    None => None,
                },
            ) {
                Some(t) => r is Ok && opt_view(r->Ok_0) == Some(t),
                None => is_meta_error(r, path@, out_of_range_message(field@)),
            },
            Some(TimestampValue::Other) => is_meta_error(r, path@, wrong_kind_message(field@)),
        },
{
    let millis = match value {
        None => {
            return Ok(None);
        },
        Some(TimestampValue::Text(s)) => {
            return Ok(Some(owned(s.as_str())));
        },
        Some(TimestampValue::Integer(v)) => integer_timestamp_to_epoch_millis(*v),
        Some(TimestampValue::Fractional(m)) => *m,
        Some(TimestampValue::Other) => {
            let message = field_message("local-agent ", field, " timestamp must be a string or number");
            return Err(meta_error(path, message));
        },
    };
    let text = match millis {
        Some(ms) => epoch_millis_to_utc_iso(ms),
        None => None,
    };
    match text {
        Some(t) => Ok(Some(t)),
        None => {
            let message = field_message("local-agent ", field, " timestamp is outside supported range");
            Err(meta_error(path, message))
        },
    }
}

// ---------------------------------------------------------------------------
// Session ids from a file's first line
// ---------------------------------------------------------------------------
/// How far into a file its header line is looked for.
pub const MAX_SESSION_HEADER_BYTES: u64 = 65536;

pub const FACTORY_SESSION_START_MISSING_MESSAGE: &'static str = "factory session file has no committed session_start line within the header limit";

pub const PI_AGENT_SESSION_HEADER_MISSING_MESSAGE: &'static str = "Pi agent session file has no committed session event line within the header limit";

/// `j` is the position of the first newline of `head`.
pub open spec fn first_newline(head: Seq<u8>, j: int) -> bool {
    0 <= j < head.len() && head[j] == 10u8 && forall|k: int| 0 <= k < j ==> head[k] != 10u8
}

pub open spec fn has_newline(head: Seq<u8>) -> bool {
    exists|j: int| 0 <= j < head.len() && head[j] == 10u8
}

/// The first line of a file, from `head`, the file's first `byte_limit` bytes
/// (all of it if it is shorter): the bytes before the first newline; `None`
/// when the limit was reached without one; an error when the file ended
/// without one.
pub fn first_committed_line(path: &str, head: &[u8], byte_limit: u64, missing_line_message: &str) -> (r:
    Result<Option<Vec<u8>>, JottraceError>)
    requires
        head.len() <= byte_limit,
    ensures
        match r {
            Ok(Some(line)) => exists|j: int| first_newline(head@, j) && line@ == head@.take(j),
            Ok(None) => !has_newline(head@) && head.len() == byte_limit,
            Err(e) => !has_newline(head@) && head.len() != byte_limit && e is InvalidSessionMeta
                && e->InvalidSessionMeta_path@ == path@ && e->InvalidSessionMeta_message@
                == missing_line_message@,
        },
{
    let mut j: usize = 0;
    while j < head.len() && head[j] != 10u8
        invariant
            j <= head.len(),
            forall|k: int| 0 <= k < j ==> head@[k] != 10u8,
        decreases head.len() - j,
    {
        j = j + 1;
    }
    if j < head.len() {
        let mut line: Vec<u8> = Vec::new();
        let mut i: usize = 0;
        while i < j
            invariant
                i <= j < head.len(),
                line@ == head@.take(i as int),
            decreases j - i,
        {
            line.push(head[i]);
            i = i + 1;
            assert(line@ =~= head@.take(i as int));
        }
        proof {
            assert(first_newline(head@, j as int));
        }
        Ok(Some(line))
    } else if head.len() as u64 == byte_limit {
        Ok(None)
    } else {
        Err(JottraceError::InvalidSessionMeta { path: owned(path), message: owned(missing_line_message) })
    }
}

pub open spec fn is_meta_error_id(r: Result<String, JottraceError>, path: Seq<char>, message: Seq<char>) -> bool {
    r is Err && r->Err_0 is InvalidSessionMeta && r->Err_0->InvalidSessionMeta_path@ == path
        && r->Err_0->InvalidSessionMeta_message@ == message
}

fn meta_error_str(path: &str, message: &str) -> (e: JottraceError)
    ensures
        e is InvalidSessionMeta,
        e->InvalidSessionMeta_path@ == path@,
        e->InvalidSessionMeta_message@ == message@,
{
    JottraceError::InvalidSessionMeta { path: owned(path), message: owned(message) }
}

/// `Some` of a non-empty value.
pub open spec fn non_empty(o: Option<Seq<char>>) -> Option<Seq<char>> {
    match o {
        Some(s) => if s.len() > 0 {
            Some(s)
        } else {
            None
        },
        None => None,
    }
}

fn non_empty_owned(o: &Option<String>) -> (r: Option<String>)
    ensures
        opt_view(r) == non_empty(opt_view(*o)),
{
    match o {
        Some(s) => if chars_of(s.as_str()).len() > 0 {
            Some(owned(s.as_str()))
        } else {
            None
        },
        None => None,
    }
}

/// The session id a local-agent audit names in its first line.
pub fn local_agent_audit_session_id(path: &str, session_id: &Option<String>) -> (r: Result<
    String,
    JottraceError,
>)
    ensures
        match non_empty(opt_view(*session_id)) {
            Some(id) => r is Ok && r->Ok_0@ == id,
            None => is_meta_error_id(r, path@, "local-agent audit session_id is missing"@),
        },
{
    match non_empty_owned(session_id) {
        Some(id) => Ok(id),
        None => Err(meta_error_str(path, "local-agent audit session_id is missing")),
    }
}

/// The id of a Codex session from its first line: the payload id of a
/// `session_meta` line, or, for the older layout without a type, an `id` that
/// is a UUID next to a `timestamp`.
pub open spec fn codex_session_id_spec(h: EventHeader) -> Result<Seq<char>, Seq<char>> {
    if opt_view(h.event_type) != Some("session_meta"@) {
        if h.event_type is None && h.timestamp is Some && (match h.id {
            Some(id) => is_uuid(id@),
            None => false,
        }) {
            Ok(h.id->0@)
        } else {
            Err("codex session file does not start with session_meta or legacy id header"@)
        }
    } else {
        match h.payload_id {
            Some(id) => Ok(id@),
            None => Err("codex session_meta payload id is missing"@),
        }
    }
}

fn is_type(h: &EventHeader, name: &str) -> (r: bool)
    ensures
        r == (opt_view(h.event_type) == Some(name@)),
{
    match &h.event_type {
        Some(t) => str_eq(t.as_str(), name),
        None => false,
    }
}

pub fn codex_session_id(path: &str, header: &EventHeader) -> (r: Result<String, JottraceError>)
    ensures
        match codex_session_id_spec(*header) {
            Ok(id) => r is Ok && r->Ok_0@ == id,
            Err(message) => is_meta_error_id(r, path@, message),
        },
{
    if !is_type(header, "session_meta") {
        if header.event_type.is_none() && header.timestamp.is_some() {
            match &header.id {
                Some(id) => {
                    let cs = chars_of(id.as_str());
                    if is_uuid_stem(cs.as_slice()) {
                        return Ok(owned(id.as_str()));
                    }
                },
                None => {},
            }
        }
        return Err(
            meta_error_str(
                path,
                "codex session file does not start with session_meta or legacy id header",
            ),
        );
    }
    match &header.payload_id {
        Some(id) => Ok(owned(id.as_str())),
        None => Err(meta_error_str(path, "codex session_meta payload id is missing")),
    }
}

/// The id a first line of type `kind` carries, non-empty; otherwise the error
/// for a wrong first line or for a missing id.
pub open spec fn typed_header_id_spec(h: EventHeader, kind: Seq<char>, wrong_type: Seq<char>, missing_id: Seq<char>) -> Result<Seq<char>, Seq<char>> {
    if opt_view(h.event_type) != Some(kind) {
        Err(wrong_type)
    } else {
        match non_empty(opt_view(h.id)) {
            Some(id) => Ok(id),
            None => Err(missing_id),
        }
    }
}

fn typed_header_id(path: &str, header: &EventHeader, kind: &str, wrong_type: &str, missing_id: &str) -> (r: Result<
    String,
    JottraceError,
>)
    ensures
        match typed_header_id_spec(*header, kind@, wrong_type@, missing_id@) {
            Ok(id) => r is Ok && r->Ok_0@ == id,
            Err(message) => is_meta_error_id(r, path@, message),
        },
{
    if !is_type(header, kind) {
        return Err(meta_error_str(path, wrong_type));
    }
    match non_empty_owned(&header.id) {
        Some(id) => Ok(id),
        None => Err(meta_error_str(path, missing_id)),
    }
}

/// The id of a Factory session: its first line must be a `session_start` with an id.
pub fn factory_session_id(path: &str, header: &EventHeader) -> (r: Result<String, JottraceError>)
    ensures
        match typed_header_id_spec(
            *header,
            "session_start"@,
            "factory session file does not start with session_start"@,
            "factory session_start id is missing"@,
        ) {
            Ok(id) => r is Ok && r->Ok_0@ == id,
            Err(message) => is_meta_error_id(r, path@, message),
        },
{
    typed_header_id(
        path,
        header,
        "session_start",
        "factory session file does not start with session_start",
        "factory session_start id is missing",
    )
}

/// The id of a Pi agent session: its first line must be a `session` event with an id.
pub fn pi_agent_session_id(path: &str, header: &EventHeader) -> (r: Result<String, JottraceError>)
    ensures
        match typed_header_id_spec(
            *header,
            "session"@,
            "Pi agent session file does not start with a session event"@,
            "Pi agent session id is missing"@,
        ) {
            Ok(id) => r is Ok && r->Ok_0@ == id,
            Err(message) => is_meta_error_id(r, path@, message),
        },
{
    typed_header_id(
        path,
        header,
        "session",
        "Pi agent session file does not start with a session event",
        "Pi agent session id is missing",
    )
}

/// The id of a Pi agent session must be the one its file name carries.
pub fn check_pi_session_id(path: &str, header_id: &str, source_session_id: &str) -> (r: Result<(), JottraceError>)
    ensures
        r is Ok <==> header_id@ == source_session_id@,
        r is Err ==> r->Err_0 is InvalidSessionMeta && r->Err_0->InvalidSessionMeta_path@ == path@
            && r->Err_0->InvalidSessionMeta_message@
            == "Pi agent session id does not match filename session id"@,
{
    if str_eq(header_id, source_session_id) {
        Ok(())
    } else {
        Err(meta_error_str(path, "Pi agent session id does not match filename session id"))
    }
}

/// The id of a Gemini chat file: its `sessionId`, which must not be blank.
pub fn gemini_session_id(path: &str, session_id: &str) -> (r: Result<String, JottraceError>)
    ensures
        (forall|t: Seq<char>| trimmed(session_id@, t) ==> t.len() > 0) ==> r is Ok && r->Ok_0@
            == session_id@,
        (forall|t: Seq<char>| trimmed(session_id@, t) ==> t.len() == 0) ==> is_meta_error_id(
            r,
            path@,
            "gemini chat sessionId is missing"@,
        ),
{
    let cs = chars_of(session_id);
    let t = trim(cs.as_slice());
    proof {
        assert forall|u: Seq<char>| trimmed(session_id@, u) implies u == t@ by {
            crate::text::lemma_trimmed_unique(session_id@, u, t@);
        }
    }
    if t.len() == 0 {
        Err(meta_error_str(path, "gemini chat sessionId is missing"))
    } else {
        Ok(owned(session_id))
    }
}

// ---------------------------------------------------------------------------
// Session ids from paths
// ---------------------------------------------------------------------------
/// `j` is the last position of `c` in `s`.
pub open spec fn last_index_of(s: Seq<char>, c: char, j: int) -> bool {
    0 <= j < s.len() && s[j] == c && forall|k: int| j < k < s.len() ==> s[k] != c
}

/// `str::rsplit_once(c)`: the parts before and after the last `c`.
pub open spec fn rsplit_once_spec(s: Seq<char>, c: char) -> Option<(Seq<char>, Seq<char>)> {
    if exists|j: int| last_index_of(s, c, j) {
        let j = choose|j: int| last_index_of(s, c, j);
        Some((s.take(j), s.skip(j + 1)))
    } else {
        None
    }
}

fn rsplit_index(s: &[char], c: char) -> (r: Option<usize>)
    ensures
        match r {
            Some(j) => last_index_of(s@, c, j as int) && rsplit_once_spec(s@, c) == Some(
                (s@.take(j as int), s@.skip(j + 1)),
            ),
            None => rsplit_once_spec(s@, c) is None,
        },
{
    let mut j = s.len();
    while j > 0 && s[j - 1] != c
        invariant
            j <= s.len(),
            forall|k: int| j <= k < s.len() ==> s@[k] != c,
        decreases j,
    {
        j = j - 1;
    }
    if j == 0 {
        proof {
            assert forall|k: int| !last_index_of(s@, c, k) by {
                if last_index_of(s@, c, k) {
                    assert(s@[k] == c);
                }
            }
        }
        None
    } else {
        proof {
            assert(last_index_of(s@, c, j - 1));
            let k = choose|k: int| last_index_of(s@, c, k);
            if k < j - 1 {
                assert(s@[j - 1] == c);
            } else if k > j - 1 {
                assert(s@[k] == c);
            }
        }
        Some(j - 1)
    }
}

/// The part of `stem` after its last `_`, or all of it.
pub open spec fn pi_suffix(stem: Seq<char>) -> Seq<char> {
    match rsplit_once_spec(stem, '_') {
        Some((_, suffix)) => suffix,
        None => stem,
    }
}

pub open spec fn is_io_error(r: Result<String, JottraceError>, path: Seq<char>, message: Seq<char>) -> bool {
    r is Err && r->Err_0 is Io && r->Err_0->Io_path@ == path && r->Err_0->Io_message@ == message
}

/// The session id in a Pi transcript's file name: the file stem after its
/// last `_`, which must not be empty.
pub fn pi_source_session_id_from_path(path: &str) -> (r: Result<String, JottraceError>)
    ensures
        match file_stem(path@) {
            None => is_io_error(r, path@, "session file name is not valid UTF-8"@),
            Some(stem) => if pi_suffix(stem).len() == 0 {
                is_io_error(r, path@, "Pi agent session id suffix is empty"@)
            } else {
                r is Ok && r->Ok_0@ == pi_suffix(stem)
            },
        },
{
    let pc = chars_of(path);
    let cs = path_components(pc.as_slice());
    let name = match crate::paths::file_name_chars(&cs) {
        Some(n) => n,
        None => {
            return Err(
                JottraceError::Io {
                    path: owned(path),
                    message: owned("session file name is not valid UTF-8"),
                },
            );
        },
    };
    let stem = stem_chars(name.as_slice());
    let suffix = match rsplit_index(stem.as_slice(), '_') {
        Some(j) => {
            let n = stem.len();
            assert(j < n);
            slice_chars(stem.as_slice(), j + 1, n)
        },
        None => slice_chars(stem.as_slice(), 0, stem.len()),
    };
    proof {
        assert(stem@.subrange(0, stem@.len() as int) =~= stem@);
        assert(stem@.subrange(stem@.len() as int, stem@.len() as int) =~= stem@.skip(
            stem@.len() as int,
        ));
    }
    if suffix.len() == 0 {
        return Err(
            JottraceError::Io {
                path: owned(path),
                message: owned("Pi agent session id suffix is empty"),
            },
        );
    }
    Ok(string_from_chars(suffix.as_slice()))
}

/// The name of the directory a path lies in (`path.parent()?.file_name()`).
pub open spec fn parent_dir_name(path: Seq<char>) -> Option<Seq<char>> {
    let cs = components(path);
    if cs.len() >= 2 && cs[cs.len() - 2] != dot_dot() {
        Some(cs[cs.len() - 2])
    } else {
        None
    }
}

/// `name` without a leading `local_`.
pub open spec fn strip_local(name: Seq<char>) -> Seq<char> {
    if name.len() >= 6 && name.take(6) == "local_"@ {
        name.skip(6)
    } else {
        name
    }
}

/// The session id of a local-agent audit whose first line names none: the name
/// of its session directory without the `local_` prefix.
pub fn local_agent_fallback_session_id(path: &str) -> (r: Result<String, JottraceError>)
    ensures
        match parent_dir_name(path@) {
            Some(name) => r is Ok && r->Ok_0@ == strip_local(name),
            None => is_io_error(r, path@, "local-agent audit path is not valid UTF-8"@),
        },
{
    let pc = chars_of(path);
    let cs = path_components(pc.as_slice());
    let dd: [char; 2] = ['.', '.'];
    proof {
        assert(dd@ =~= dot_dot());
    }
    if cs.len() < 2 || chars_eq(cs[cs.len() - 2].as_slice(), &dd) {
        return Err(
            JottraceError::Io {
                path: owned(path),
                message: owned("local-agent audit path is not valid UTF-8"),
            },
        );
    }
    let name = &cs[cs.len() - 2];
    let prefix = chars_of("local_");
    proof {
        reveal_strlit("local_");
        assert(rows(cs@)[cs.len() - 2] == name@);
    }
    if name.len() >= 6 && crate::text::has_prefix(name.as_slice(), prefix.as_slice()) {
        let rest = slice_chars(name.as_slice(), 6, name.len());
        proof {
            assert(rest@ =~= name@.skip(6));
        }
        Ok(string_from_chars(rest.as_slice()))
    } else {
        proof {
            if name@.len() >= 6 && name@.take(6) == "local_"@ {
                assert(crate::text::is_prefix(prefix@, name@));
            }
        }
        Ok(string_from_chars(name.as_slice()))
    }
}

pub open spec fn all_ascii_digits(s: Seq<char>) -> bool {
    forall|i: int| 0 <= i < s.len() ==> '0' <= #[trigger] s[i] <= '9'
}

/// A run directory name: `run-` and a non-empty run of ASCII digits.
pub open spec fn is_run_name(name: Seq<char>) -> bool {
    name.len() > 4 && name.take(4) == "run-"@ && all_ascii_digits(name.skip(4))
}

/// For a nested Pi agent run at `<parent>_<uuid>/<short>/run-<n>/session.*`:
/// the parent session's UUID and the placeholder id `<parent>_<uuid>/<short>/run-<n>`.
pub open spec fn nested_run_info_spec(path: Seq<char>) -> Option<(Seq<char>, Seq<char>)> {
    let cs = components(path);
    let n = cs.len();
    if n >= 4 && cs[n - 1] != dot_dot() && stem_of_name(cs[n - 1]) == "session"@ && is_run_name(
        cs[n - 2],
    ) && cs[n - 3] != dot_dot() && cs[n - 4] != dot_dot() {
        match rsplit_once_spec(cs[n - 4], '_') {
            Some((_, uuid)) => if is_uuid(uuid) {
                Some((uuid, cs[n - 4] + "/"@ + cs[n - 3] + "/"@ + cs[n - 2]))
            } else {
                None
            },
            None => None,
        }
    } else {
        None
    }
}

pub open spec fn stem_of_name(name: Seq<char>) -> Seq<char> {
    crate::paths::stem_of(name)
}

fn all_digits_from(s: &[char], start: usize) -> (r: bool)
    requires
        start <= s.len(),
    ensures
        r == all_ascii_digits(s@.skip(start as int)),
{
    let mut i = start;
    while i < s.len()
        invariant
            start <= i <= s.len(),
            forall|k: int| start <= k < i ==> '0' <= #[trigger] s@[k] <= '9',
        decreases s.len() - i,
    {
        if !('0' <= s[i] && s[i] <= '9') {
            proof {
                assert(s@.skip(start as int)[i - start] == s@[i as int]);
            }
            return false;
        }
        i = i + 1;
    }
    proof {
        assert forall|k: int| 0 <= k < s@.skip(start as int).len() implies '0' <= #[trigger] s@.skip(
            start as int,
        )[k] <= '9' by {
            assert(s@.skip(start as int)[k] == s@[start + k]);
        }
    }
    true
}

/// Where a Pi agent transcript is a nested run, its parent session and
/// placeholder id (see `nested_run_info_spec`).
pub fn pi_agent_nested_run_info(path: &str) -> (r: Option<(String, String)>)
    ensures
        match r {
            Some((parent, placeholder)) => nested_run_info_spec(path@) == Some(
                (parent@, placeholder@),
            ),
            None => nested_run_info_spec(path@) is None,
        },
{
    let pc = chars_of(path);
    let cs = path_components(pc.as_slice());
    let n = cs.len();
    let dd: [char; 2] = ['.', '.'];
    let session = chars_of("session");
    let run = chars_of("run-");
    proof {
        assert(dd@ =~= dot_dot());
        reveal_strlit("run-");
    }
    if n < 4 || chars_eq(cs[n - 1].as_slice(), &dd) {
        return None;
    }
    let stem = stem_chars(cs[n - 1].as_slice());
    if !chars_eq(stem.as_slice(), session.as_slice()) {
        return None;
    }
    let run_name = &cs[n - 2];
    let short_name = &cs[n - 3];
    let parent_name = &cs[n - 4];
    proof {
        assert(rows(cs@)[n - 2] == run_name@);
        assert(rows(cs@)[n - 3] == short_name@);
        assert(rows(cs@)[n - 4] == parent_name@);
    }
    if !(run_name.len() > 4 && crate::text::has_prefix(run_name.as_slice(), run.as_slice())
        && all_digits_from(run_name.as_slice(), 4)) {
        return None;
    }
    if chars_eq(short_name.as_slice(), &dd) || chars_eq(parent_name.as_slice(), &dd) {
        return None;
    }
    let uuid = match rsplit_index(parent_name.as_slice(), '_') {
        Some(j) => {
            let m = parent_name.len();
            assert(j < m);
            slice_chars(parent_name.as_slice(), j + 1, m)
        },
        None => {
            return None;
        },
    };
    if !is_uuid_stem(uuid.as_slice()) {
        return None;
    }
    let mut placeholder: Vec<char> = parent_name.clone();
    placeholder.push('/');
    crate::text::push_all(&mut placeholder, short_name.as_slice());
    placeholder.push('/');
    crate::text::push_all(&mut placeholder, run_name.as_slice());
    proof {
        assert(uuid@ =~= parent_name@.skip(
            (choose|j: int| last_index_of(parent_name@, '_', j)) + 1,
        ));
        assert(placeholder@ =~= parent_name@ + "/"@ + short_name@ + "/"@ + run_name@) by {
            reveal_strlit("/");
        }
    }
    Some((string_from_chars(uuid.as_slice()), string_from_chars(placeholder.as_slice())))
}

// ---------------------------------------------------------------------------
// Factory settings sidecars
// ---------------------------------------------------------------------------
/// A JSON member read as an optional `i64`: `null` is `Some(None)`, an `i64`
/// number is `Some(Some(n))`, anything else (or nothing) is `None`.
pub open spec fn json_i64_option_spec(value: Option<JsonValue>) -> Option<Option<i64>> {
    match value {
        Some(JsonValue::Number(n)) => match n.signed {
            Some(v) => Some(Some(v)),
            None => None,
        },
        Some(JsonValue::Null) => Some(None),
        _ => None,
    }
}

pub fn json_i64_option(value: Option<&JsonValue>) -> (r: Option<Option<i64>>)
    ensures
        r == json_i64_option_spec(opt_deref(value)),
{
    match value {
        Some(JsonValue::Number(n)) => match n.signed {
            Some(v) => Some(Some(v)),
            None => None,
        },
        Some(JsonValue::Null) => Some(None),
        _ => None,
    }
}

/// The stored source metadata of a Factory session still describes its
/// settings file: same path, size and modification time, and it recorded
/// either the settings or why they could not be read.
pub open spec fn factory_settings_match_spec(
    stored: Option<JsonValue>,
    settings_path: Seq<char>,
    settings_file_size: i64,
    settings_file_mtime: Option<i64>,
) -> bool {
    match stored {
        Some(v) => json_str(json_get(v, "settings_path"@)) == Some(settings_path) && json_i64(
            json_get(v, "settings_file_size"@),
        ) == Some(settings_file_size) && json_i64_option_spec(json_get(v, "settings_file_mtime"@))
            == Some(settings_file_mtime) && (json_get(v, "settings"@) is Some || json_get(
            v,
            "settings_parse_error"@,
        ) is Some),
        None => false,
    }
}

/// The source metadata of a Factory session: where its settings file is, its
/// size, modification time and content fingerprint, and the settings document
/// or the decoder's message when the file is not JSON.
pub open spec fn factory_metadata_is(
    v: JsonValue,
    settings_path: Seq<char>,
    size: i64,
    mtime: Option<i64>,
    buffer: Seq<u8>,
) -> bool {
    let ms = obj_members(v);
    &&& v is Object && ms.len() == 6
    &&& ms[0].0@ == "settings_path"@ && text_is(ms[0].1, settings_path)
    &&& ms[1].0@ == "settings_file_size"@ && ms[1].1 == int_json(size)
    &&& ms[2].0@ == "settings_file_mtime"@ && ms[2].1 == opt_int_json(mtime)
    &&& ms[3].0@ == "settings_content_fingerprint"@ && text_is(ms[3].1, crate::ingest::fingerprint_spec(buffer))
    &&& ms[4].0@ == "settings"@ && ms[4].1 == match json_parse_result(buffer) {
        Ok(d) => d,
        Err(_) => JsonValue::Null,
    }
    &&& ms[5].0@ == "settings_parse_error"@ && match json_parse_result(buffer) {
        Ok(_) => ms[5].1 == JsonValue::Null,
        Err(m) => text_is(ms[5].1, m),
    }
}

/// The source metadata text of a Factory session, from its settings file's
/// path, size, modification time and bytes (see `factory_metadata_is`).
pub fn factory_source_metadata(settings_path: &str, size: i64, mtime: Option<i64>, buffer: &[u8]) -> (r: String)
    ensures
        exists|m: JsonValue|
            factory_metadata_is(m, settings_path@, size, mtime, buffer@) && r@ == vstd::utf8::decode_utf8(
                json_text(m),
            ),
{
    let (settings, error) = match decode_json(buffer) {
        Ok(d) => (d, JsonValue::Null),
        Err(m) => (JsonValue::Null, JsonValue::String(m)),
    };
    let mut ms: Vec<(String, JsonValue)> = Vec::new();
    push_member(&mut ms, "settings_path", text_value(settings_path));
    push_member(&mut ms, "settings_file_size", int_value(size));
    push_member(&mut ms, "settings_file_mtime", opt_int_value(mtime));
    let fp = crate::ingest::fingerprint(buffer);
    push_member(&mut ms, "settings_content_fingerprint", text_value(fp.as_str()));
    push_member(&mut ms, "settings", settings);
    push_member(&mut ms, "settings_parse_error", error);
    let v = JsonValue::Object(ms);
    let text = encode_json_string(&v);
    proof {
        assert(factory_metadata_is(v, settings_path@, size, mtime, buffer@));
    }
    text
}

/// Whether stored Factory source metadata (decoded; `None` when it is not
/// JSON) still matches the settings file (see `factory_settings_match_spec`).
pub fn factory_settings_metadata_matches(
    stored: Option<&JsonValue>,
    settings_path: &str,
    settings_file_size: i64,
    settings_file_mtime: Option<i64>,
) -> (r: bool)
    ensures
        r == factory_settings_match_spec(
            opt_deref(stored),
            settings_path@,
            settings_file_size,
            settings_file_mtime,
        ),
{
    let v = match stored {
        Some(v) => v,
        None => {
            return false;
        },
    };
    let path_ok = match v.get("settings_path") {
        Some(p) => match p.as_str() {
            Some(t) => str_eq(t, settings_path),
            None => false,
        },
        None => false,
    };
    let size_ok = match v.get("settings_file_size") {
        Some(n) => n.as_i64() == Some(settings_file_size),
        None => false,
    };
    let mtime_ok = json_i64_option(v.get("settings_file_mtime")) == Some(settings_file_mtime);
    let recorded = v.get("settings").is_some() || v.get("settings_parse_error").is_some();
    path_ok && size_ok && mtime_ok && recorded
}

} // verus!

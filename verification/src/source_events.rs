//! Events read from SQLite-backed transcript stores (OpenCode, Hermes): their
//! order, their fingerprint, and the decision whether a store snapshot needs
//! importing again.
//!
//! Querying the stores happens outside the library; OpenCode payloads are
//! built in `opencode`, and each payload arrives here as bytes.
use vstd::prelude::*;

use crate::ingest::{fnv, hex_fixed, fingerprint_spec, update_fingerprint, StoredSession, FNV_OFFSET_BASIS};
use crate::text::{chars_of, chars_order, opt_view, push_zero_padded, seq_lt, str_eq, string_from_chars, zero_padded};

verus! {

/// One row of a store, ready to become a journal event.
#[derive(Debug, Clone, PartialEq, Eq)]
pub struct SourceEvent {
    /// Creation time of the row, in the store's own unit.
    pub sort_time: i64,
    /// Which table the row came from: the session row first, then tables in a fixed order.
    pub rank: i64,
    pub id: String,
    pub ts: Option<String>,
    pub payload: Vec<u8>,
}

/// The OpenCode tables whose rows become events, after the session row.
#[derive(Debug, Clone, Copy, PartialEq, Eq, Structural)]
pub enum OpenCodeTable {
    Message,
    Part,
    SessionMessage,
}

impl OpenCodeTable {
    pub open spec fn name_spec(self) -> Seq<char> {
        match self {
            OpenCodeTable::Message => "message"@,
            OpenCodeTable::Part => "part"@,
            OpenCodeTable::SessionMessage => "session_message"@,
        }
    }

    pub open spec fn rank_spec(self) -> i64 {
        match self {
            OpenCodeTable::Message => 1,
            OpenCodeTable::Part => 2,
            OpenCodeTable::SessionMessage => 3,
        }
    }

    /// The table's name, which is also the event's `type`.
    pub fn name(self) -> (r: &'static str)
        ensures
            r@ == self.name_spec(),
    {
        match self {
            OpenCodeTable::Message => "message",
            OpenCodeTable::Part => "part",
            OpenCodeTable::SessionMessage => "session_message",
        }
    }

    /// Where the table's rows sort among rows created at the same time.
    pub fn rank(self) -> (r: i64)
        ensures
            r == self.rank_spec(),
    {
        match self {
            OpenCodeTable::Message => 1,
            OpenCodeTable::Part => 2,
            OpenCodeTable::SessionMessage => 3,
        }
    }
}

// ---------------------------------------------------------------------------
// Order
// ---------------------------------------------------------------------------
/// `a` sorts strictly before `b`: by time, then rank, then id.
pub open spec fn event_before(a: SourceEvent, b: SourceEvent) -> bool {
    a.sort_time < b.sort_time || (a.sort_time == b.sort_time && (a.rank < b.rank || (a.rank
        == b.rank && seq_lt(a.id@, b.id@))))
}

/// `a` and `b` have the same sort key.
pub open spec fn same_key(a: SourceEvent, b: SourceEvent) -> bool {
    a.sort_time == b.sort_time && a.rank == b.rank && a.id@ == b.id@
}

pub proof fn lemma_event_before_strict(a: SourceEvent, b: SourceEvent)
    ensures
        !event_before(a, a),
        event_before(a, b) ==> !event_before(b, a) && !same_key(a, b),
        !event_before(a, b) && !event_before(b, a) ==> same_key(a, b),
{
    crate::text::lemma_seq_lt_strict(a.id@, b.id@);
}

/// `out` holds the events of `input` rearranged: `out[k]` is `input[perm[k]]`,
/// no input event used twice.
pub open spec fn arranged(input: Seq<SourceEvent>, out: Seq<SourceEvent>, perm: Seq<int>) -> bool {
    &&& out.len() == input.len()
    &&& perm.len() == out.len()
    &&& forall|k: int| 0 <= k < out.len() ==> 0 <= #[trigger] perm[k] < input.len() && out[k] == input[perm[k]]
    &&& forall|k: int, l: int| 0 <= k < l < out.len() ==> perm[k] != perm[l]
}

/// Neighbours are in key order, and neighbours with equal keys keep their input order.
pub open spec fn in_key_order(out: Seq<SourceEvent>, perm: Seq<int>) -> bool {
    forall|k: int|
        0 <= k < out.len() - 1 ==> !event_before(#[trigger] out[k + 1], out[k]) && (same_key(
            out[k],
            out[k + 1],
        ) ==> perm[k] < perm[k + 1])
}

/// `out` is `input` sorted stably by time, rank and id.
pub open spec fn sorted_events(input: Seq<SourceEvent>, out: Seq<SourceEvent>) -> bool {
    exists|perm: Seq<int>| arranged(input, out, perm) && in_key_order(out, perm)
}

fn before(a: &SourceEvent, b: &SourceEvent) -> (r: bool)
    ensures
        r == event_before(*a, *b),
{
    if a.sort_time != b.sort_time {
        return a.sort_time < b.sort_time;
    }
    if a.rank != b.rank {
        return a.rank < b.rank;
    }
    let ia = chars_of(a.id.as_str());
    let ib = chars_of(b.id.as_str());
    chars_order(ia.as_slice(), ib.as_slice()) < 0
}

fn insert_sorted(out: &mut Vec<SourceEvent>, e: SourceEvent) -> (p: usize)
    ensures
        p <= old(out).len(),
        final(out)@ == old(out)@.insert(p as int, e),
        p > 0 ==> !event_before(e, old(out)@[p - 1]),
        forall|k: int| p <= k < old(out).len() ==> event_before(e, #[trigger] old(out)@[k]),
{
    let mut p = out.len();
    while p > 0 && before(&e, &out[p - 1])
        invariant
            p <= out.len(),
            forall|k: int| p <= k < out.len() ==> event_before(e, #[trigger] out@[k]),
        decreases p,
    {
        p = p - 1;
    }
    out.insert(p, e);
    p
}

proof fn lemma_insert_keeps_key_order(
    input: Seq<SourceEvent>,
    out: Seq<SourceEvent>,
    perm: Seq<int>,
    i: int,
    p: int,
)
    requires
        0 <= i < input.len(),
        arranged(input.take(i), out, perm),
        in_key_order(out, perm),
        0 <= p <= out.len(),
        p > 0 ==> !event_before(input[i], out[p - 1]),
        forall|k: int| p <= k < out.len() ==> event_before(input[i], #[trigger] out[k]),
    ensures
        arranged(input.take(i + 1), out.insert(p, input[i]), perm.insert(p, i)),
        in_key_order(out.insert(p, input[i]), perm.insert(p, i)),
{
    let e = input[i];
    let out2 = out.insert(p, e);
    let perm2 = perm.insert(p, i);
    let inp = input.take(i + 1);
    out.insert_ensures(p, e);
    perm.insert_ensures(p, i);
    assert forall|k: int| 0 <= k < out2.len() implies 0 <= #[trigger] perm2[k] < inp.len() && out2[k]
        == inp[perm2[k]] by {
        if k < p {
            assert(perm2[k] == perm[k]);
            assert(out[k] == input.take(i)[perm[k]]);
        } else if k > p {
            assert(perm2[k] == perm[k - 1]);
            assert(out[k - 1] == input.take(i)[perm[k - 1]]);
        }
    }
    assert forall|k: int, l: int| 0 <= k < l < out2.len() implies perm2[k] != perm2[l] by {
        if k < p && l < p {
        } else if k > p && l > p {
            assert(perm2[k] == perm[k - 1] && perm2[l] == perm[l - 1]);
        } else if k < p && l > p {
            assert(perm2[k] == perm[k] && perm2[l] == perm[l - 1]);
            if perm[k] == perm[l - 1] {
                assert(k < l - 1);
            }
        } else if k == p {
            assert(perm2[l] == perm[l - 1]);
            assert(0 <= perm[l - 1] < input.take(i).len());
        } else {
            assert(perm2[k] == perm[k]);
            assert(0 <= perm[k] < input.take(i).len());
        }
    }
    assert forall|k: int| 0 <= k < out2.len() - 1 implies !event_before(#[trigger] out2[k + 1], out2[k])
        && (same_key(out2[k], out2[k + 1]) ==> perm2[k] < perm2[k + 1]) by {
        if k + 1 < p {
            assert(out2[k] == out[k] && out2[k + 1] == out[k + 1]);
        } else if k + 1 == p {
            assert(out2[k] == out[k] && out2[k + 1] == e);
            assert(0 <= perm[k] < input.take(i).len());
            lemma_event_before_strict(e, out[k]);
            lemma_event_before_strict(out[k], e);
        } else if k == p {
            assert(out2[k] == e && out2[k + 1] == out[k]);
            lemma_event_before_strict(e, out[k]);
        } else {
            assert(out2[k] == out[k - 1] && out2[k + 1] == out[k]);
            assert(perm2[k] == perm[k - 1] && perm2[k + 1] == perm[k]);
        }
    }
}

/// Sorts store rows by time, then rank, then id; rows with equal keys keep
/// their input order.
pub fn sort_source_events(events: Vec<SourceEvent>) -> (out: Vec<SourceEvent>)
    ensures
        sorted_events(events@, out@),
{
    let ghost input = events@;
    let mut rest = events;
    let mut out: Vec<SourceEvent> = Vec::new();
    let ghost mut perm: Seq<int> = Seq::empty();
    let ghost mut i: int = 0;
    while rest.len() > 0
        invariant
            0 <= i <= input.len(),
            rest@ == input.skip(i),
            arranged(input.take(i), out@, perm),
            in_key_order(out@, perm),
        decreases rest.len(),
    {
        let e = rest.remove(0);
        let ghost prev = out@;
        let p = insert_sorted(&mut out, e);
        proof {
            assert(e == input[i]);
            lemma_insert_keeps_key_order(input, prev, perm, i, p as int);
            perm = perm.insert(p as int, i);
            i = i + 1;
            assert(input.skip(i) =~= input.skip(i - 1).drop_first());
        }
    }
    proof {
        assert(input.take(i) =~= input);
    }
    out
}

/// Sorted rows come in key order: no row sorts before the one ahead of it.
pub proof fn lemma_sorted_events_in_order(input: Seq<SourceEvent>, out: Seq<SourceEvent>)
    requires
        sorted_events(input, out),
    ensures
        out.len() == input.len(),
        forall|k: int| 0 <= k < out.len() - 1 ==> !event_before(#[trigger] out[k + 1], out[k]),
        forall|k: int| 0 <= k < out.len() ==> input.contains(#[trigger] out[k]),
{
    let perm = choose|perm: Seq<int>| arranged(input, out, perm) && in_key_order(out, perm);
    assert forall|k: int| 0 <= k < out.len() implies input.contains(#[trigger] out[k]) by {
        assert(out[k] == input[perm[k]]);
    }
}

// ---------------------------------------------------------------------------
// Fingerprint
// ---------------------------------------------------------------------------
/// Every payload followed by a newline, in order.
pub open spec fn payload_stream(events: Seq<SourceEvent>) -> Seq<u8>
    decreases events.len(),
{
    if events.len() == 0 {
        Seq::empty()
    } else {
        payload_stream(events.drop_last()) + events.last().payload@ + seq![10u8]
    }
}

/// Hashing a concatenation is hashing its parts in turn.
pub proof fn lemma_fnv_concat(h: u64, a: Seq<u8>, b: Seq<u8>)
    ensures
        fnv(h, a + b) == fnv(fnv(h, a), b),
    decreases b.len(),
{
    if b.len() == 0 {
        assert(a + b =~= a);
    } else {
        lemma_fnv_concat(h, a, b.drop_last());
        assert((a + b).drop_last() =~= a + b.drop_last());
        assert((a + b).last() == b.last());
    }
}

/// The fingerprint of a snapshot: the FNV-1a hash of its payload stream, as 16
/// lowercase hex digits.
pub fn source_events_fingerprint(events: &[SourceEvent]) -> (r: String)
    ensures
        r@ == fingerprint_spec(payload_stream(events@)),
{
    let mut hash = FNV_OFFSET_BASIS;
    let newline: [u8; 1] = [10u8];
    let mut i: usize = 0;
    while i < events.len()
        invariant
            i <= events.len(),
            newline@ == seq![10u8],
            hash == fnv(FNV_OFFSET_BASIS, payload_stream(events@.take(i as int))),
        decreases events.len() - i,
    {
        let ghost h0 = hash;
        update_fingerprint(&mut hash, events[i].payload.as_slice());
        let ghost h1 = hash;
        update_fingerprint(&mut hash, &newline);
        proof {
            let prev = payload_stream(events@.take(i as int));
            assert(events@.take(i + 1).drop_last() =~= events@.take(i as int));
            assert(events@.take(i + 1).last() == events@[i as int]);
            lemma_fnv_concat(FNV_OFFSET_BASIS, prev, events@[i as int].payload@);
            lemma_fnv_concat(FNV_OFFSET_BASIS, prev + events@[i as int].payload@, seq![10u8]);
        }
        i = i + 1;
    }
    proof {
        assert(events@.take(events.len() as int) =~= events@);
    }
    let out = crate::ingest::hex_fixed_chars(hash, 16);
    string_from_chars(out.as_slice())
}

// ---------------------------------------------------------------------------
// Hermes message ids
// ---------------------------------------------------------------------------
/// `{:020}` of a signed integer: zero-padded to 20 characters, the sign counted.
pub open spec fn padded_id(id: int) -> Seq<char> {
    if id >= 0 {
        zero_padded(id as nat, 20)
    } else {
        "-"@ + zero_padded((-id) as nat, 19)
    }
}

/// The event id of a Hermes message row: its integer id, zero-padded so that
/// ids sort as text in numeric order of the non-negative ones.
pub fn hermes_message_event_id(id: i64) -> (r: String)
    ensures
        r@ == padded_id(id as int),
{
    let mut out: Vec<char> = Vec::new();
    if id >= 0 {
        push_zero_padded(&mut out, id as u64, 20);
    } else {
        out.push('-');
        let magnitude: u64 = (0i128 - (id as i128)) as u64;
        push_zero_padded(&mut out, magnitude, 19);
        proof {
            assert(out@ =~= "-"@ + zero_padded((-id) as nat, 19)) by {
                reveal_strlit("-");
            }
        }
    }
    string_from_chars(out.as_slice())
}

// ---------------------------------------------------------------------------
// Whether a snapshot needs importing
// ---------------------------------------------------------------------------
/// What to do with a snapshot of a store session.
#[derive(Debug, Clone, Copy, PartialEq, Eq, Structural)]
pub enum SnapshotStep {
    /// Same content and the same stored facts: nothing to do.
    UpToDate,
    /// Same content, but the stored file facts or links changed: refresh them only.
    Refresh,
    /// New content: import it as this generation.
    Import { generation: i64 },
}

/// A session row that was created for a file that never produced events.
pub open spec fn is_placeholder(s: StoredSession) -> bool {
    s.current_generation == 0 && s.next_read_offset == 0 && s.event_count == 0
        && s.content_fingerprint is None
}

/// Whether a stored row is an empty placeholder (see `is_placeholder`).
pub fn is_empty_source_file_placeholder(stored: &StoredSession) -> (r: bool)
    ensures
        r == is_placeholder(*stored),
{
    stored.current_generation == 0 && stored.next_read_offset == 0 && stored.event_count == 0
        && stored.content_fingerprint.is_none()
}

/// The stored row was made from this path.
pub open spec fn path_matches(s: StoredSession, path: Seq<char>) -> bool {
    opt_view(s.file_path) == Some(path)
}

/// The stored row records the same file size, modification time, parent link
/// and source metadata as the current pass.
pub open spec fn snapshot_matches(
    s: StoredSession,
    path: Seq<char>,
    pass_size: i64,
    file_mtime: Option<i64>,
    parent_session_id: Option<i64>,
    source_metadata: Seq<char>,
) -> bool {
    &&& path_matches(s, path)
    &&& s.file_size == Some(pass_size)
    &&& s.file_mtime == file_mtime
    &&& s.parent_session_id == parent_session_id
    &&& opt_view(s.source_metadata) == Some(source_metadata)
}

/// The step for a store snapshot with fingerprint `fingerprint`: a stored row
/// with the same fingerprint is up to date or needs a refresh; otherwise the
/// snapshot is imported as the stored generation plus one, or as generation 0
/// for a new session or an empty placeholder.
pub open spec fn snapshot_step_spec(
    stored: Option<StoredSession>,
    fingerprint: Seq<char>,
    path: Seq<char>,
    pass_size: i64,
    file_mtime: Option<i64>,
    parent_session_id: Option<i64>,
    source_metadata: Seq<char>,
) -> Option<SnapshotStep> {
    match stored {
        Some(s) => if opt_view(s.content_fingerprint) == Some(fingerprint) {
            if snapshot_matches(s, path, pass_size, file_mtime, parent_session_id, source_metadata) {
                Some(SnapshotStep::UpToDate)
            } else {
                Some(SnapshotStep::Refresh)
            }
        } else if is_placeholder(s) {
            Some(SnapshotStep::Import { generation: 0 })
        } else if s.current_generation < i64::MAX {
            Some(SnapshotStep::Import { generation: (s.current_generation + 1) as i64 })
        } else {
            None
        },
        None => Some(SnapshotStep::Import { generation: 0 }),
    }
}

fn opt_str_is(o: &Option<String>, v: &str) -> (r: bool)
    ensures
        r == (opt_view(*o) == Some(v@)),
{
    match o {
        Some(s) => str_eq(s.as_str(), v),
        None => false,
    }
}

/// The stored row was made from `path` (`stored_session_path_matches`).
pub fn stored_session_path_matches(stored: &StoredSession, path: &str) -> (r: bool)
    ensures
        r == path_matches(*stored, path@),
{
    opt_str_is(&stored.file_path, path)
}

/// Whether the stored facts of a snapshot still hold (see `snapshot_matches`).
pub fn stored_sqlite_snapshot_matches(
    stored: &StoredSession,
    path: &str,
    pass_size: i64,
    file_mtime: Option<i64>,
    parent_session_id: Option<i64>,
    source_metadata: &str,
) -> (r: bool)
    ensures
        r == snapshot_matches(*stored, path@, pass_size, file_mtime, parent_session_id, source_metadata@),
{
    stored_session_path_matches(stored, path) && stored.file_size == Some(pass_size)
        && stored.file_mtime == file_mtime && stored.parent_session_id == parent_session_id
        && opt_str_is(&stored.source_metadata, source_metadata)
}

/// Decides what to do with a store snapshot (see `snapshot_step_spec`);
/// `None` only where the next generation would pass `i64::MAX`.
pub fn sqlite_snapshot_step(
    stored: &Option<StoredSession>,
    fingerprint: &str,
    path: &str,
    pass_size: i64,
    file_mtime: Option<i64>,
    parent_session_id: Option<i64>,
    source_metadata: &str,
) -> (r: Option<SnapshotStep>)
    ensures
        r == snapshot_step_spec(
            *stored,
            fingerprint@,
            path@,
            pass_size,
            file_mtime,
            parent_session_id,
            source_metadata@,
        ),
{
    match stored {
        Some(s) => {
            if opt_str_is(&s.content_fingerprint, fingerprint) {
                if stored_sqlite_snapshot_matches(
                    s,
                    path,
                    pass_size,
                    file_mtime,
                    parent_session_id,
                    source_metadata,
                ) {
                    Some(SnapshotStep::UpToDate)
                } else {
                    Some(SnapshotStep::Refresh)
                }
            } else if is_empty_source_file_placeholder(s) {
                Some(SnapshotStep::Import { generation: 0 })
            } else if s.current_generation < i64::MAX {
                Some(SnapshotStep::Import { generation: s.current_generation + 1 })
            } else {
                None
            }
        },
        None => Some(SnapshotStep::Import { generation: 0 }),
    }
}

/// Importing a snapshot whose content changed always opens a generation past
/// the stored one, unless the stored row was an empty placeholder.
pub proof fn lemma_changed_snapshot_opens_new_generation(
    s: StoredSession,
    fingerprint: Seq<char>,
    path: Seq<char>,
    pass_size: i64,
    file_mtime: Option<i64>,
    parent_session_id: Option<i64>,
    source_metadata: Seq<char>,
)
    requires
        opt_view(s.content_fingerprint) != Some(fingerprint),
        !is_placeholder(s),
        s.current_generation < i64::MAX,
    ensures
        snapshot_step_spec(
            Some(s),
            fingerprint,
            path,
            pass_size,
            file_mtime,
            parent_session_id,
            source_metadata,
        ) == Some(SnapshotStep::Import { generation: (s.current_generation + 1) as i64 }),
{
}

} // verus!

//! Session identity and incremental-import decisions for transcript files.
//!
//! Reading files and talking to SQLite happen outside the library; these
//! functions decide which session a file belongs to, whether a stored read
//! offset can still be trusted, and which bytes to import next.
use vstd::prelude::*;

use crate::error::JottraceError;
use crate::paths::{components, dot_dot, file_stem, path_components, stem_chars};
use crate::text::{opt_view, 
    chars_eq, chars_of, find_last, has_prefix, is_prefix, join, join_chars, occurs_at, push_all,
    push_str, rows, seq_lt, slice_chars, string_from_chars,
};

verus! {

pub const CLAUDE_SOURCE: &'static str = "claude_cli";

pub const CLAUDE_LOCAL_AGENT_SOURCE: &'static str = "claude_local_agent";

pub const CODEX_SOURCE: &'static str = "codex_cli";

pub const FNV_OFFSET_BASIS: u64 = 0xcbf29ce484222325;

pub const FNV_PRIME: u64 = 0x100000001b3;

/// Totals reported after an ingest pass.
#[derive(Debug, Clone, PartialEq, Eq)]
pub struct IngestReport {
    pub db_path: String,
    pub file_count: u64,
    pub session_count: u64,
    pub event_count: u64,
    pub inserted_event_count: u64,
    pub skipped_file_count: u64,
    pub unresolved_ingest_error_count: u64,
}

/// The per-file counts of an ingest pass: events inserted, and files that
/// inserted none.
#[derive(Debug, Clone, Copy, PartialEq, Eq, Structural)]
pub struct IngestTally {
    pub inserted_event_count: u64,
    pub skipped_file_count: u64,
}

/// The counts of a pass whose files inserted `inserted[i]` events each, in order.
pub open spec fn tally_of(inserted: Seq<u64>) -> (nat, nat)
    decreases inserted.len(),
{
    if inserted.len() == 0 {
        (0, 0)
    } else {
        let (events, skipped) = tally_of(inserted.drop_last());
        (
            (events + inserted.last()) as nat,
            if inserted.last() == 0 {
                (skipped + 1) as nat
            } else {
                skipped
            },
        )
    }
}

impl IngestTally {
    /// The counts before any file.
    pub fn new() -> (r: IngestTally)
        ensures
            (r.inserted_event_count as nat, r.skipped_file_count as nat) == tally_of(Seq::empty()),
    {
        IngestTally { inserted_event_count: 0, skipped_file_count: 0 }
    }

    /// Counts one more file, which inserted `inserted` events.
    pub fn record_file(&mut self, inserted: u64)
        requires
            old(self).inserted_event_count + inserted <= u64::MAX,
            old(self).skipped_file_count < u64::MAX,
        ensures
            final(self).inserted_event_count == old(self).inserted_event_count + inserted,
            final(self).skipped_file_count == old(self).skipped_file_count + if inserted == 0 {
                1int
            } else {
                0int
            },
    {
        self.inserted_event_count = self.inserted_event_count + inserted;
        if inserted == 0 {
            self.skipped_file_count = self.skipped_file_count + 1;
        }
    }
}

/// Counting file by file gives the pass's counts: `record_file` over
/// `inserted`, from `IngestTally::new`, ends at `tally_of(inserted)`.
pub proof fn lemma_tally_steps(inserted: Seq<u64>, x: u64)
    ensures
        tally_of(inserted.push(x)) == ((tally_of(inserted).0 + x) as nat, if x == 0 {
            (tally_of(inserted).1 + 1) as nat
        } else {
            tally_of(inserted).1
        }),
{
    assert(inserted.push(x).drop_last() =~= inserted);
}

/// A pass in which no file inserted an event (as a second pass over files that
/// have not changed, each of which is skipped) reports no inserted event and
/// every file skipped.
pub proof fn lemma_pass_without_inserts(inserted: Seq<u64>)
    requires
        forall|i: int| 0 <= i < inserted.len() ==> inserted[i] == 0,
    ensures
        tally_of(inserted) == (0nat, inserted.len()),
    decreases inserted.len(),
{
    if inserted.len() > 0 {
        lemma_pass_without_inserts(inserted.drop_last());
    }
}

// ---------------------------------------------------------------------------
// Session identity from a path
// ---------------------------------------------------------------------------
pub open spec fn is_hex(c: char) -> bool {
    ('0' <= c <= '9') || ('a' <= c <= 'f') || ('A' <= c <= 'F')
}

/// A canonical textual UUID: 36 characters, dashes exactly at 8, 13, 18, 23,
/// ASCII hex digits everywhere else.
pub open spec fn is_uuid(v: Seq<char>) -> bool {
    &&& v.len() == 36
    &&& forall|i: int|
        0 <= i < 36 ==> ((i == 8 || i == 13 || i == 18 || i == 23) == (v[i] == '-')) && (v[i]
            != '-' ==> is_hex(v[i]))
}

/// Whether `value` is a canonical textual UUID.
pub fn is_uuid_stem(value: &[char]) -> (r: bool)
    ensures
        r == is_uuid(value@),
{
    if value.len() != 36 {
        return false;
    }
    let mut i: usize = 0;
    while i < 36
        invariant
            value.len() == 36,
            i <= 36,
            forall|j: int|
                0 <= j < i ==> ((j == 8 || j == 13 || j == 18 || j == 23) == (value@[j] == '-')) && (
                value@[j] != '-' ==> is_hex(value@[j])),
        decreases 36 - i,
    {
        let c = value[i];
        let dash_slot = i == 8 || i == 13 || i == 18 || i == 23;
        if dash_slot != (c == '-') {
            return false;
        }
        if c != '-' && !(('0' <= c && c <= '9') || ('a' <= c && c <= 'f') || ('A' <= c && c <= 'F')) {
            return false;
        }
        i = i + 1;
    }
    true
}

pub open spec fn subagents() -> Seq<char> {
    "subagents"@
}

pub open spec fn agent_prefix() -> Seq<char> {
    "agent-"@
}

/// A direct subagent transcript `<uuid>/subagents/agent-*.<ext>` names its parent session.
pub open spec fn parent_session_spec(cs: Seq<Seq<char>>, stem: Seq<char>) -> Option<Seq<char>> {
    if is_prefix(agent_prefix(), stem) && cs.len() >= 3 && cs[cs.len() - 2] == subagents()
        && is_uuid(cs[cs.len() - 3]) {
        Some(cs[cs.len() - 3])
    } else {
        None
    }
}

/// `i` is the first position of `x` in `cs`.
pub open spec fn first_at(cs: Seq<Seq<char>>, x: Seq<char>, i: int) -> bool {
    0 <= i < cs.len() && cs[i] == x && forall|j: int| 0 <= j < i ==> cs[j] != x
}

/// A transcript nested deeper below `<uuid>/subagents/` is qualified by its path
/// below the session directory: `<uuid>/subagents/<dirs...>/<stem>`.
pub open spec fn nested_session_spec(cs: Seq<Seq<char>>, stem: Seq<char>) -> Option<
    (Seq<char>, Seq<char>),
> {
    if exists|i: int| first_at(cs, subagents(), i) {
        let i = choose|i: int| first_at(cs, subagents(), i);
        let nested = cs.skip(i + 1);
        if i >= 1 && is_uuid(cs[i - 1]) && nested.len() >= 2 {
            let parts = seq![cs[i - 1], subagents()] + nested.take(nested.len() - 1) + seq![stem];
            Some((cs[i - 1], join(parts, "/"@)))
        } else {
            None
        }
    } else {
        None
    }
}

/// The `(source_session_id, parent_source_session_id)` a transcript path stands for,
/// or `None` when the path has no file stem.
pub open spec fn session_ids_spec(path: Seq<char>) -> Option<(Seq<char>, Option<Seq<char>>)> {
    match file_stem(path) {
        None => None,
        Some(stem) => {
            let cs = components(path);
            match parent_session_spec(cs, stem) {
                Some(parent) => Some((parent + "/subagents/"@ + stem, Some(parent))),
                None => match nested_session_spec(cs, stem) {
                    Some((parent, id)) => Some((id, Some(parent))),
                    None => Some((stem, None)),
                },
            }
        },
    }
}

fn parent_source_session_id_from_components(cs: &Vec<Vec<char>>, stem: &[char]) -> (r: Option<
    Vec<char>,
>)
    ensures
        match r {
            Some(p) => parent_session_spec(rows(cs@), stem@) == Some(p@),
            None => parent_session_spec(rows(cs@), stem@) is None,
        },
{
    let prefix = chars_of("agent-");
    if !has_prefix(stem, prefix.as_slice()) || cs.len() < 3 {
        return None;
    }
    let sub = chars_of("subagents");
    if !chars_eq(cs[cs.len() - 2].as_slice(), sub.as_slice()) {
        return None;
    }
    let candidate = &cs[cs.len() - 3];
    if is_uuid_stem(candidate.as_slice()) {
        Some(candidate.clone())
    } else {
        None
    }
}

fn nested_subagents_source_session_id(cs: &Vec<Vec<char>>, stem: &[char]) -> (r: Option<
    (Vec<char>, Vec<char>),
>)
    ensures
        match r {
            Some((p, id)) => nested_session_spec(rows(cs@), stem@) == Some((p@, id@)),
            None => nested_session_spec(rows(cs@), stem@) is None,
        },
{
    let sub = chars_of("subagents");
    let mut i: usize = 0;
    while i < cs.len() && !chars_eq(cs[i].as_slice(), sub.as_slice())
        invariant
            i <= cs.len(),
            sub@ == subagents(),
            forall|j: int| 0 <= j < i ==> rows(cs@)[j] != subagents(),
        decreases cs.len() - i,
    {
        i = i + 1;
    }
    if i == cs.len() {
        proof {
            assert forall|k: int| !first_at(rows(cs@), subagents(), k) by {
                if first_at(rows(cs@), subagents(), k) {
                    assert(rows(cs@)[k] == subagents());
                }
            }
        }
        return None;
    }
    proof {
        assert(first_at(rows(cs@), subagents(), i as int));
        let k = choose|k: int| first_at(rows(cs@), subagents(), k);
        if k < i {
            assert(rows(cs@)[k] != subagents());
        } else if k > i {
            assert(rows(cs@)[i as int] != subagents());
        }
        assert(k == i);
    }
    if i < 1 || !is_uuid_stem(cs[i - 1].as_slice()) || cs.len() - (i + 1) < 2 {
        return None;
    }
    let parent = cs[i - 1].clone();
    let mut parts: Vec<Vec<char>> = Vec::new();
    parts.push(parent.clone());
    parts.push(sub);
    let mut j: usize = i + 1;
    while j < cs.len() - 1
        invariant
            1 <= i,
            i + 1 <= j <= cs.len() - 1,
            cs.len() >= i + 3,
            rows(parts@) == seq![rows(cs@)[i - 1], subagents()] + rows(cs@).skip(i + 1).take(
                j - (i + 1),
            ),
        decreases cs.len() - j,
    {
        let ghost before = rows(parts@);
        let ghost jj = j as int;
        parts.push(cs[j].clone());
        j = j + 1;
        assert(rows(parts@) =~= before.push(rows(cs@)[jj]));
        assert(rows(cs@).skip(i + 1).take(j - (i + 1)) =~= rows(cs@).skip(i + 1).take(
            jj - (i + 1),
        ).push(rows(cs@)[jj]));
    }
    parts.push(slice_chars(stem, 0, stem.len()));
    let slash = chars_of("/");
    let id = join_chars(&parts, slash.as_slice());
    proof {
        let nested = rows(cs@).skip(i + 1);
        assert(stem@.subrange(0, stem@.len() as int) =~= stem@);
        assert(rows(parts@) =~= seq![rows(cs@)[i - 1], subagents()] + nested.take(nested.len() - 1)
            + seq![stem@]);
    }
    Some((parent, id))
}

/// The session id of a transcript path and, for subagent transcripts, the id of
/// the session that spawned it.
pub fn source_session_ids_from_path(path: &str) -> (r: Result<(String, Option<String>), JottraceError>)
    ensures
        match r {
            Ok((id, parent)) => session_ids_spec(path@) == Some(
                (id@, match parent {
                    Some(p) => Some(p@),
                    None => None,
                }),
            ),
            Err(e) => session_ids_spec(path@) is None && e == JottraceError::Io {
                path: e->Io_path,
                message: e->Io_message,
            } && e->Io_path@ == path@ && e->Io_message@ == "session file name is not valid UTF-8"@,
        },
{
    let pc = chars_of(path);
    let cs = path_components(pc.as_slice());
    if cs.len() == 0 || chars_eq(cs[cs.len() - 1].as_slice(), &['.', '.']) {
        proof {
            assert(['.', '.']@ =~= dot_dot());
        }
        return Err(JottraceError::Io {
            path: crate::text::owned(path),
            message: crate::text::owned("session file name is not valid UTF-8"),
        });
    }
    proof {
        assert(['.', '.']@ =~= dot_dot());
    }
    let stem = stem_chars(cs[cs.len() - 1].as_slice());
    match parent_source_session_id_from_components(&cs, stem.as_slice()) {
        Some(parent) => {
            let mut id = parent.clone();
            push_str(&mut id, "/subagents/");
            push_all(&mut id, stem.as_slice());
            return Ok(
                (
                    string_from_chars(id.as_slice()),
                    Some(string_from_chars(parent.as_slice())),
                ),
            );
        },
        None => {},
    }
    match nested_subagents_source_session_id(&cs, stem.as_slice()) {
        Some((parent, id)) => Ok(
            (string_from_chars(id.as_slice()), Some(string_from_chars(parent.as_slice()))),
        ),
        None => Ok((string_from_chars(stem.as_slice()), None)),
    }
}

/// The parts the session id of a subagent transcript is joined from with `/`:
/// its parent session, `subagents`, the directories below that and its file
/// stem; `None` for a transcript of a top-level session.
pub open spec fn subagent_id_parts(path: Seq<char>) -> Option<Seq<Seq<char>>> {
    match file_stem(path) {
        None => None,
        Some(stem) => {
            let cs = components(path);
            match parent_session_spec(cs, stem) {
                Some(parent) => Some(seq![parent, subagents(), stem]),
                None => match nested_session_spec(cs, stem) {
                    Some(_) => {
                        let i = choose|i: int| first_at(cs, subagents(), i);
                        let nested = cs.skip(i + 1);
                        Some(seq![cs[i - 1], subagents()] + nested.take(nested.len() - 1) + seq![stem])
                    },
                    None => None,
                },
            }
        },
    }
}

proof fn lemma_join_three(a: Seq<char>, b: Seq<char>, c: Seq<char>)
    ensures
        join(seq![a, b, c], "/"@) == a + "/"@ + b + "/"@ + c,
{
    let xs = seq![a, b, c];
    let ab = seq![a, b];
    assert(xs.drop_last() =~= ab);
    assert(ab.drop_last() =~= seq![a]);
    assert(join(seq![a], "/"@) == a);
    assert(join(ab, "/"@) == join(seq![a], "/"@) + "/"@ + b);
    assert(join(xs, "/"@) == join(ab, "/"@) + "/"@ + c);
    assert(join(xs, "/"@) =~= a + "/"@ + b + "/"@ + c);
}

/// `join` of `[p, q] + rest` starts with `p`, the separator, `q`, the separator.
proof fn lemma_join_head(p: Seq<char>, q: Seq<char>, rest: Seq<Seq<char>>)
    requires
        rest.len() >= 1,
    ensures
        join(seq![p, q] + rest, "/"@) == p + "/"@ + q + "/"@ + join(rest, "/"@),
    decreases rest.len(),
{
    let xs = seq![p, q] + rest;
    if rest.len() == 1 {
        assert(xs =~= seq![p, q, rest[0]]);
        lemma_join_three(p, q, rest[0]);
    } else {
        let init = rest.drop_last();
        lemma_join_head(p, q, init);
        assert(xs.drop_last() =~= seq![p, q] + init);
        assert(xs.last() == rest.last());
        assert(join(rest, "/"@) == join(init, "/"@) + "/"@ + rest.last());
    }
}

/// Subagent transcripts are kept as child sessions of their own, linked to the
/// session that spawned them: the id of a transcript with a parent session is
/// `<parent>/subagents/...`, joined with `/` from its parent, the directories
/// below `subagents` and its file stem, and so two subagent transcripts share
/// an id only when all of these agree; the id of a top-level session (its
/// file stem) holds no `/`, so it never equals a subagent's id.
pub proof fn lemma_subagent_sessions_are_distinct_children(p: Seq<char>, q: Seq<char>)
    ensures
        match session_ids_spec(p) {
            Some((id, Some(parent))) => match subagent_id_parts(p) {
                Some(parts) => parts.len() >= 3 && parts[0] == parent && parts[1] == subagents()
                    && id == join(parts, "/"@) && id.len() > parent.len() + 11 && id.take(
                    parent.len() + 11int,
                ) == parent + "/subagents/"@,
                None => false,
            },
            Some((id, None)) => crate::text::free_of(id, '/'),
            None => true,
        },
        match (session_ids_spec(p), session_ids_spec(q)) {
            (Some((id_p, Some(_))), Some((id_q, Some(_)))) => id_p == id_q ==> subagent_id_parts(p)
                == subagent_id_parts(q),
            _ => true,
        },
{
    lemma_subagent_id_parts(p);
    lemma_subagent_id_parts(q);
    match (session_ids_spec(p), session_ids_spec(q)) {
        (Some((id_p, Some(_))), Some((id_q, Some(_)))) => {
            if id_p == id_q {
                let pp = subagent_id_parts(p)->0;
                let qp = subagent_id_parts(q)->0;
                reveal_strlit("/");
                assert("/"@ =~= seq!['/']);
                crate::text::lemma_join_injective(pp, qp, '/');
            }
        },
        _ => {},
    }
}

proof fn lemma_subagent_id_parts(path: Seq<char>)
    ensures
        match session_ids_spec(path) {
            Some((id, Some(parent))) => match subagent_id_parts(path) {
                Some(parts) => parts.len() >= 3 && parts[0] == parent && parts[1] == subagents()
                    && id == join(parts, "/"@) && id.len() > parent.len() + 11 && id.take(
                    parent.len() + 11int,
                ) == parent + "/subagents/"@ && forall|k: int|
                    0 <= k < parts.len() ==> crate::text::free_of(#[trigger] parts[k], '/'),
                None => false,
            },
            Some((id, None)) => crate::text::free_of(id, '/'),
            None => true,
        },
{
    reveal_strlit("/subagents/");
    reveal_strlit("/");
    reveal_strlit("subagents");
    reveal_strlit("agent-");
    crate::paths::lemma_components_free_of_slash(path);
    assert(crate::text::free_of(subagents(), '/'));
    assert("/"@ + subagents() + "/"@ =~= "/subagents/"@);
    match file_stem(path) {
        None => {},
        Some(stem) => {
            let cs = components(path);
            match parent_session_spec(cs, stem) {
                Some(parent) => {
                    let parts = seq![parent, subagents(), stem];
                    lemma_join_three(parent, subagents(), stem);
                    assert(crate::text::free_of(cs[cs.len() - 3], '/'));
                    assert forall|k: int| 0 <= k < parts.len() implies crate::text::free_of(
                        #[trigger] parts[k],
                        '/',
                    ) by {
                        if k == 0 {
                            assert(parts[k] == cs[cs.len() - 3]);
                        } else if k == 1 {
                            assert(parts[k] == subagents());
                        } else {
                            assert(parts[k] == stem);
                        }
                    }
                    let id = parent + "/subagents/"@ + stem;
                    assert(stem.len() >= 6);
                    assert(id.take(parent.len() + 11int) =~= parent + "/subagents/"@);
                    assert(join(parts, "/"@) =~= id);
                },
                None => match nested_session_spec(cs, stem) {
                    Some((parent, id)) => {
                        let i = choose|i: int| first_at(cs, subagents(), i);
                        let nested = cs.skip(i + 1);
                        let dirs = nested.take(nested.len() - 1);
                        let rest = dirs + seq![stem];
                        let parts = seq![cs[i - 1], subagents()] + dirs + seq![stem];
                        assert(parts =~= seq![cs[i - 1], subagents()] + rest);
                        lemma_join_head(cs[i - 1], subagents(), rest);
                        assert(rest.len() >= 2);
                        assert(join(rest, "/"@) == join(rest.drop_last(), "/"@) + "/"@ + rest.last());
                        let head = cs[i - 1] + "/"@ + subagents() + "/"@;
                        assert(head =~= parent + "/subagents/"@);
                        assert(id =~= head + join(rest, "/"@));
                        assert(id.take(parent.len() + 11int) =~= parent + "/subagents/"@);
                        assert forall|k: int| 0 <= k < parts.len() implies crate::text::free_of(
                            #[trigger] parts[k],
                            '/',
                        ) by {
                            if k == 0 {
                                assert(parts[k] == cs[i - 1]);
                            } else if k == 1 {
                                assert(parts[k] == subagents());
                            } else if k < parts.len() - 1 {
                                assert(parts[k] == cs[i + 1 + (k - 2)]);
                            } else {
                                assert(parts[k] == stem);
                            }
                        }
                    },
                    None => {},
                },
            }
        },
    }
}

// ---------------------------------------------------------------------------
// Ingest order
// ---------------------------------------------------------------------------
/// The positions `i` of `flags` with `flags[i] == want`, in order.
pub open spec fn positions_with(flags: Seq<bool>, want: bool) -> Seq<int>
    decreases flags.len(),
{
    if flags.len() == 0 {
        Seq::empty()
    } else {
        let prev = positions_with(flags.drop_last(), want);
        if flags.last() == want {
            prev.push(flags.len() - 1)
        } else {
            prev
        }
    }
}

/// Files of sessions without a parent come first, then those of sessions
/// with one, so that a parent session is stored before its children; within
/// each group the given order is kept.
pub open spec fn parents_last_spec(has_parent: Seq<bool>) -> Seq<int> {
    positions_with(has_parent, false) + positions_with(has_parent, true)
}

fn push_positions(order: &mut Vec<usize>, has_parent: &[bool], want: bool)
    ensures
        final(order)@.map_values(|i: usize| i as int) == old(order)@.map_values(|i: usize| i as int)
            + positions_with(has_parent@, want),
{
    let ghost start = order@.map_values(|i: usize| i as int);
    let mut k: usize = 0;
    while k < has_parent.len()
        invariant
            k <= has_parent.len(),
            order@.map_values(|i: usize| i as int) == start + positions_with(
                has_parent@.take(k as int),
                want,
            ),
        decreases has_parent.len() - k,
    {
        proof {
            assert(has_parent@.take(k + 1).drop_last() =~= has_parent@.take(k as int));
            assert(has_parent@.take(k + 1).last() == has_parent@[k as int]);
        }
        if has_parent[k] == want {
            let ghost before = order@;
            order.push(k);
            proof {
                assert(order@ == before.push(k));
                assert(order@.map_values(|i: usize| i as int) =~= before.map_values(
                    |i: usize| i as int,
                ).push(k as int));
                assert(order@.map_values(|i: usize| i as int) =~= start + positions_with(
                    has_parent@.take(k as int),
                    want,
                ).push(k as int));
            }
        }
        k = k + 1;
    }
    proof {
        assert(has_parent@.take(has_parent.len() as int) =~= has_parent@);
    }
}

/// The order in which to ingest source files, given for each whether its
/// session has a parent (see `parents_last_spec`).
pub fn parents_last_order(has_parent: &[bool]) -> (order: Vec<usize>)
    ensures
        order@.map_values(|i: usize| i as int) == parents_last_spec(has_parent@),
{
    let mut order: Vec<usize> = Vec::new();
    proof {
        assert(order@.map_values(|i: usize| i as int) =~= Seq::<int>::empty());
    }
    push_positions(&mut order, has_parent, false);
    push_positions(&mut order, has_parent, true);
    proof {
        assert(Seq::<int>::empty() + positions_with(has_parent@, false) =~= positions_with(
            has_parent@,
            false,
        ));
    }
    order
}

// ---------------------------------------------------------------------------
// Content fingerprints
// ---------------------------------------------------------------------------
/// 64-bit FNV-1a of `bytes`, continued from `hash`.
pub open spec fn fnv(hash: u64, bytes: Seq<u8>) -> u64
    decreases bytes.len(),
{
    if bytes.len() == 0 {
        hash
    } else {
        vstd::wrapping::u64_specs::wrapping_mul(
            fnv(hash, bytes.drop_last()) ^ (bytes.last() as u64),
            FNV_PRIME,
        )
    }
}

pub open spec fn hex_char(d: nat) -> char {
    if d < 10 {
        crate::text::digit_char(d)
    } else if d == 10 {
        'a'
    } else if d == 11 {
        'b'
    } else if d == 12 {
        'c'
    } else if d == 13 {
        'd'
    } else if d == 14 {
        'e'
    } else {
        'f'
    }
}

/// The lowest `n` hex digits of `v`, most significant first (`{:0nx}` for values below 16^n).
pub open spec fn hex_fixed(v: nat, n: nat) -> Seq<char>
    decreases n,
{
    if n == 0 {
        Seq::<char>::empty()
    } else {
        hex_fixed(v / 16, (n - 1) as nat).push(hex_char(v % 16))
    }
}

/// The fingerprint text of a byte run: FNV-1a as 16 lowercase hex digits.
pub open spec fn fingerprint_spec(bytes: Seq<u8>) -> Seq<char> {
    hex_fixed(fnv(FNV_OFFSET_BASIS, bytes) as nat, 16)
}

/// Continues an FNV-1a hash over `bytes`.
pub fn update_fingerprint(hash: &mut u64, bytes: &[u8])
    ensures
        *final(hash) == fnv(*old(hash), bytes@),
{
    let ghost start = *hash;
    let mut i: usize = 0;
    while i < bytes.len()
        invariant
            i <= bytes.len(),
            *hash == fnv(start, bytes@.take(i as int)),
        decreases bytes.len() - i,
    {
        assert(bytes@.take((i + 1) as int).drop_last() =~= bytes@.take(i as int));
        *hash = (*hash ^ (bytes[i] as u64)).wrapping_mul(FNV_PRIME);
        i = i + 1;
    }
    assert(bytes@.take(bytes.len() as int) =~= bytes@);
}

fn hex_digit(d: u64) -> (c: char)
    requires
        d < 16,
    ensures
        c == hex_char(d as nat),
{
    if d < 10 {
        crate::text::digit(d)
    } else if d == 10 {
        'a'
    } else if d == 11 {
        'b'
    } else if d == 12 {
        'c'
    } else if d == 13 {
        'd'
    } else if d == 14 {
        'e'
    } else {
        'f'
    }
}

pub(crate) fn hex_fixed_chars(v: u64, n: usize) -> (out: Vec<char>)
    ensures
        out@ == hex_fixed(v as nat, n as nat),
    decreases n,
{
    if n == 0 {
        Vec::new()
    } else {
        let mut out = hex_fixed_chars(v / 16, n - 1);
        out.push(hex_digit(v % 16));
        out
    }
}

/// FNV-1a fingerprint of a byte buffer, as 16 lowercase hex digits.
pub fn fingerprint(buffer: &[u8]) -> (r: String)
    ensures
        r@ == fingerprint_spec(buffer@),
{
    let mut hash = FNV_OFFSET_BASIS;
    update_fingerprint(&mut hash, buffer);
    let out = hex_fixed_chars(hash, 16);
    string_from_chars(out.as_slice())
}

/// Whether the bytes already consumed still match: the offset is 0, or it lies
/// within the buffer and either the stored prefix fingerprint matches or, for
/// rows without one, the byte before the offset is a newline.
pub open spec fn prefix_intact_spec(
    next_read_offset: int,
    prefix_fingerprint: Option<Seq<char>>,
    buffer: Seq<u8>,
) -> bool {
    let offset = if next_read_offset < 0 {
        0
    } else {
        next_read_offset
    };
    if offset == 0 {
        true
    } else if offset > buffer.len() {
        false
    } else {
        match prefix_fingerprint {
            Some(expected) => fingerprint_spec(buffer.take(offset)) == expected,
            None => buffer[offset - 1] == 10u8,
        }
    }
}

/// Whether the bytes consumed up to `next_read_offset` are unchanged, so that a
/// resumed read continues at a record boundary of the same content.
pub fn append_prefix_intact(next_read_offset: i64, prefix_fingerprint: Option<&str>, buffer: &[u8]) -> (r:
    bool)
    ensures
        r == prefix_intact_spec(
            next_read_offset as int,
            match prefix_fingerprint {
                Some(p) => Some(p@),
                None => None,
            },
            buffer@,
        ),
{
    let offset: u64 = if next_read_offset < 0 {
        0
    } else {
        next_read_offset as u64
    };
    if offset == 0 {
        return true;
    }
    if offset > buffer.len() as u64 {
        return false;
    }
    let offset = offset as usize;
    match prefix_fingerprint {
        Some(expected) => {
            let prefix = slice_bytes(buffer, offset);
            let actual = fingerprint(prefix.as_slice());
            let a = chars_of(actual.as_str());
            let e = chars_of(expected);
            chars_eq(a.as_slice(), e.as_slice())
        },
        None => buffer[offset - 1] == 10u8,
    }
}

/// The first `n` bytes of `buffer`.
pub fn slice_bytes(buffer: &[u8], n: usize) -> (out: Vec<u8>)
    requires
        n <= buffer.len(),
    ensures
        out@ == buffer@.take(n as int),
{
    let mut out: Vec<u8> = Vec::new();
    let mut i: usize = 0;
    while i < n
        invariant
            i <= n <= buffer.len(),
            out@ == buffer@.take(i as int),
        decreases n - i,
    {
        out.push(buffer[i]);
        i = i + 1;
        assert(out@ =~= buffer@.take(i as int));
    }
    out
}

// ---------------------------------------------------------------------------
// Line boundaries
// ---------------------------------------------------------------------------
/// `n` is the length of the newline-terminated part of `buffer`: one past its
/// last newline, or 0 when there is none.
pub open spec fn committed_len_spec(buffer: Seq<u8>, n: int) -> bool {
    &&& 0 <= n <= buffer.len()
    &&& n > 0 ==> buffer[n - 1] == 10u8
    &&& forall|j: int| n <= j < buffer.len() ==> buffer[j] != 10u8
}

/// The committed length of a buffer is unique.
pub proof fn lemma_committed_len_unique(buffer: Seq<u8>, a: int, b: int)
    requires
        committed_len_spec(buffer, a),
        committed_len_spec(buffer, b),
    ensures
        a == b,
{
    if a < b {
        assert(buffer[b - 1] == 10u8);
    } else if b < a {
        assert(buffer[a - 1] == 10u8);
    }
}

/// Length of the newline-terminated prefix of `buffer`.
pub fn committed_len(buffer: &[u8]) -> (n: usize)
    ensures
        committed_len_spec(buffer@, n as int),
{
    let mut i = buffer.len();
    while i > 0 && buffer[i - 1] != 10u8
        invariant
            i <= buffer.len(),
            forall|j: int| i <= j < buffer.len() ==> buffer@[j] != 10u8,
        decreases i,
    {
        i = i - 1;
    }
    i
}

/// Position of the first newline at or after `start`, given that one exists before `end`.
pub fn next_line_end(buffer: &[u8], start: usize, end: usize) -> (e: usize)
    requires
        start <= end <= buffer.len(),
        exists|j: int| start <= j < end && buffer@[j] == 10u8,
    ensures
        start <= e < end,
        buffer@[e as int] == 10u8,
        forall|j: int| start <= j < e ==> buffer@[j] != 10u8,
{
    let mut i = start;
    while buffer[i] != 10u8
        invariant
            start <= i < end <= buffer.len(),
            forall|j: int| start <= j < i ==> buffer@[j] != 10u8,
            exists|j: int| i <= j < end && buffer@[j] == 10u8,
        decreases end - i,
    {
        i = i + 1;
    }
    i
}

/// Number of newlines among the first `n` bytes.
pub open spec fn newline_count(buffer: Seq<u8>, n: int) -> nat
    decreases n,
{
    if n <= 0 {
        0
    } else {
        newline_count(buffer, n - 1) + if buffer[n - 1] == 10u8 {
            1nat
        } else {
            0nat
        }
    }
}

/// The zero-based line number of the byte at `offset`.
pub fn line_number_at(buffer: &[u8], offset: usize) -> (r: i64)
    requires
        offset <= buffer.len(),
        buffer.len() <= i64::MAX,
    ensures
        r as int == newline_count(buffer@, offset as int),
{
    let mut count: u64 = 0;
    let mut i: usize = 0;
    while i < offset
        invariant
            i <= offset <= buffer.len(),
            count as int == newline_count(buffer@, i as int),
            count <= i,
        decreases offset - i,
    {
        if buffer[i] == 10u8 {
            count = count + 1;
        }
        i = i + 1;
    }
    count as i64
}

// ---------------------------------------------------------------------------
// Import decisions
// ---------------------------------------------------------------------------
/// How a source file is stored.
#[derive(Debug, Clone, Copy, PartialEq, Eq, Structural)]
pub enum SourceFormat {
    Jsonl,
    GeminiChatJson,
    OpenCodeSqlite,
    HermesSqlite,
}

/// What to do with the current pass over a file.
#[derive(Debug, Clone, Copy, PartialEq, Eq, Structural)]
pub enum ImportMode {
    Append,
    Rewrite,
    Skip,
}

/// What the journal remembers about a session row.
#[derive(Debug, Clone, PartialEq, Eq)]
pub struct StoredSession {
    pub id: i64,
    pub source_session_id: String,
    pub file_path: Option<String>,
    pub parent_session_id: Option<i64>,
    pub current_generation: i64,
    pub file_size: Option<i64>,
    pub file_mtime: Option<i64>,
    pub content_fingerprint: Option<String>,
    pub source_metadata: Option<String>,
    pub next_read_offset: i64,
    pub event_count: i64,
    pub prefix_fingerprint: Option<String>,
}


/// The import mode for a pass: skip an unchanged file, append to an intact
/// JSONL prefix that grew (or that holds a still-unresolved invalid line),
/// import a first pass from the start, and rewrite everything else.
pub open spec fn import_mode_spec(
    format: SourceFormat,
    stored: StoredSession,
    pass_size: i64,
    content_fingerprint: Seq<char>,
    prefix_intact: bool,
    retry_unresolved_invalid_json: bool,
) -> ImportMode {
    match stored.file_size {
        Some(file_size) => if file_size == pass_size && opt_view(stored.content_fingerprint)
            == Some(content_fingerprint) {
            ImportMode::Skip
        } else if format == SourceFormat::Jsonl && !prefix_intact {
            ImportMode::Rewrite
        } else if format == SourceFormat::Jsonl && ((retry_unresolved_invalid_json && pass_size
            >= stored.next_read_offset) || pass_size > file_size) {
            ImportMode::Append
        } else {
            ImportMode::Rewrite
        },
        None => ImportMode::Append,
    }
}

pub fn import_mode(
    format: SourceFormat,
    stored: &StoredSession,
    pass_size: i64,
    content_fingerprint: &str,
    prefix_intact: bool,
    retry_unresolved_invalid_json: bool,
) -> (m: ImportMode)
    ensures
        m == import_mode_spec(
            format,
            *stored,
            pass_size,
            content_fingerprint@,
            prefix_intact,
            retry_unresolved_invalid_json,
        ),
{
    match stored.file_size {
        Some(file_size) => {
            let same_fingerprint = match &stored.content_fingerprint {
                Some(f) => crate::text::str_eq(f.as_str(), content_fingerprint),
                None => false,
            };
            if file_size == pass_size && same_fingerprint {
                ImportMode::Skip
            } else if format == SourceFormat::Jsonl && !prefix_intact {
                ImportMode::Rewrite
            } else if format == SourceFormat::Jsonl && ((retry_unresolved_invalid_json && pass_size
                >= stored.next_read_offset) || pass_size > file_size) {
                ImportMode::Append
            } else {
                ImportMode::Rewrite
            }
        },
        None => ImportMode::Append,
    }
}

/// The decisions taken once a pass has read a file's bytes.
#[derive(Debug, Clone, PartialEq, Eq)]
pub struct ImportPlan {
    pub mode: ImportMode,
    /// FNV fingerprint of the whole buffer.
    pub content_fingerprint: String,
    /// Whether the previously consumed prefix is unchanged.
    pub prefix_intact: bool,
    /// Up to where content counts as read: the committed length for JSONL, the pass size otherwise.
    pub read_boundary: i64,
    /// The generation the imported events belong to.
    pub generation: i64,
    /// First byte to import (JSONL only; 0 otherwise).
    pub start_offset: usize,
}

pub open spec fn plan_ok(
    format: SourceFormat,
    stored: StoredSession,
    buffer: Seq<u8>,
    pass_size: i64,
    retry: bool,
    p: ImportPlan,
) -> bool {
    let intact = prefix_intact_spec(
        stored.next_read_offset as int,
        opt_view(stored.prefix_fingerprint),
        buffer,
    );
    let fp = fingerprint_spec(buffer);
    &&& p.content_fingerprint@ == fp
    &&& p.prefix_intact == intact
    &&& p.mode == import_mode_spec(format, stored, pass_size, fp, intact, retry)
    &&& p.generation == if p.mode == ImportMode::Rewrite {
        stored.current_generation + 1
    } else {
        stored.current_generation as int
    }
    &&& if format == SourceFormat::Jsonl {
        committed_len_spec(buffer, p.read_boundary as int) && p.start_offset == if p.mode
            == ImportMode::Append {
            let o = if stored.next_read_offset < 0 {
                0
            } else {
                stored.next_read_offset as int
            };
            if o < p.read_boundary {
                o
            } else {
                p.read_boundary as int
            }
        } else {
            0
        }
    } else {
        p.read_boundary == pass_size && p.start_offset == 0
    }
}

/// Plans the import of a freshly read buffer against the stored session row.
/// Fails only where a rewrite would open a generation past `i64::MAX`.
pub fn plan_import(
    format: SourceFormat,
    stored: &StoredSession,
    buffer: &[u8],
    pass_size: i64,
    retry_unresolved_invalid_json: bool,
) -> (r: Result<ImportPlan, ()>)
    requires
        buffer.len() <= i64::MAX,
    ensures
        match r {
            Ok(p) => plan_ok(format, *stored, buffer@, pass_size, retry_unresolved_invalid_json, p),
            Err(()) => stored.current_generation == i64::MAX && import_mode_spec(
                format,
                *stored,
                pass_size,
                fingerprint_spec(buffer@),
                prefix_intact_spec(
                    stored.next_read_offset as int,
                    opt_view(stored.prefix_fingerprint),
                    buffer@,
                ),
                retry_unresolved_invalid_json,
            ) == ImportMode::Rewrite,
        },
{
    let content_fingerprint = fingerprint(buffer);
    let prefix = match &stored.prefix_fingerprint {
        Some(p) => Some(p.as_str()),
        None => None,
    };
    let prefix_intact = append_prefix_intact(stored.next_read_offset, prefix, buffer);
    let mode = import_mode(
        format,
        stored,
        pass_size,
        content_fingerprint.as_str(),
        prefix_intact,
        retry_unresolved_invalid_json,
    );
    let rewrite = match mode {
        ImportMode::Rewrite => true,
        _ => false,
    };
    if rewrite && stored.current_generation == i64::MAX {
        return Err(());
    }
    let generation = if rewrite {
        stored.current_generation + 1
    } else {
        stored.current_generation
    };
    let (read_boundary, start_offset) = jsonl_bounds(format, mode, stored.next_read_offset, buffer, pass_size);
    Ok(ImportPlan { mode, content_fingerprint, prefix_intact, read_boundary, generation, start_offset })
}

/// Where committed content ends, and where this pass starts reading.
fn jsonl_bounds(format: SourceFormat, mode: ImportMode, next_read_offset: i64, buffer: &[u8], pass_size: i64) -> (r: (i64, usize))
    requires
        buffer.len() <= i64::MAX,
    ensures
        if format == SourceFormat::Jsonl {
            committed_len_spec(buffer@, r.0 as int) && r.1 == if mode == ImportMode::Append {
                let o = if next_read_offset < 0 { 0 } else { next_read_offset as int };
                if o < r.0 { o } else { r.0 as int }
            } else {
                0
            }
        } else {
            r.0 == pass_size && r.1 == 0
        },
{
    match format {
        SourceFormat::Jsonl => {
            let committed = committed_len(buffer);
            proof {
                assert(committed <= buffer@.len());
            }
            let start_offset: usize = match mode {
                ImportMode::Append => {
                    let o: u64 = if next_read_offset < 0 { 0 } else { next_read_offset as u64 };
                    if o < committed as u64 { o as usize } else { committed }
                },
                _ => 0,
            };
            (committed as i64, start_offset)
        },
        _ => (pass_size, 0),
    }
}

/// A JSONL pass never resumes in the middle of a record: when it appends to a
/// session that was imported before, the consumed prefix is unchanged, and the
/// resume offset is either the start or just after a newline of the committed part.
pub proof fn lemma_append_resumes_at_record_boundary(
    stored: StoredSession,
    buffer: Seq<u8>,
    pass_size: i64,
    retry: bool,
    p: ImportPlan,
)
    requires
        plan_ok(SourceFormat::Jsonl, stored, buffer, pass_size, retry, p),
        p.mode == ImportMode::Append,
        stored.file_size is Some,
        stored.prefix_fingerprint is None,
    ensures
        p.prefix_intact,
        p.start_offset == 0 || buffer[p.start_offset - 1] == 10u8,
        p.start_offset <= p.read_boundary <= buffer.len(),
{
}

/// An unchanged file (same size and content fingerprint as stored) is skipped
/// and keeps its generation; a rewrite always opens a new generation.
pub proof fn lemma_unchanged_file_is_skipped(
    format: SourceFormat,
    stored: StoredSession,
    buffer: Seq<u8>,
    pass_size: i64,
    retry: bool,
    p: ImportPlan,
)
    requires
        plan_ok(format, stored, buffer, pass_size, retry, p),
    ensures
        (stored.file_size == Some(pass_size) && opt_view(stored.content_fingerprint) == Some(
            fingerprint_spec(buffer),
        )) ==> p.mode == ImportMode::Skip && p.generation == stored.current_generation,
        p.mode == ImportMode::Skip ==> stored.file_size == Some(pass_size),
        p.mode == ImportMode::Rewrite ==> p.generation == stored.current_generation + 1,
{
}

/// A JSONL source file that shrank, or whose already-imported prefix changed,
/// is kept as a new generation instead of being appended to (unless it is
/// retried after an invalid line and still reaches the stored offset).
pub proof fn lemma_truncated_or_rewritten_file_opens_new_generation(
    stored: StoredSession,
    buffer: Seq<u8>,
    pass_size: i64,
    retry: bool,
    p: ImportPlan,
)
    requires
        plan_ok(SourceFormat::Jsonl, stored, buffer, pass_size, retry, p),
        stored.file_size is Some,
        stored.file_size->0 != pass_size || opt_view(stored.content_fingerprint) != Some(
            fingerprint_spec(buffer),
        ),
        !p.prefix_intact || (pass_size < stored.file_size->0 && !(retry && pass_size
            >= stored.next_read_offset)),
    ensures
        p.mode == ImportMode::Rewrite,
        p.generation == stored.current_generation + 1,
{
}

} // verus!

//! Resolving snapshot content kept in `claude_cli` file-history sidecars.
//!
//! Reading a sidecar is left to a reader the caller supplies; the resolver
//! decides which file to read and what each outcome of the read means.
use vstd::prelude::*;

use crate::error::JottraceError;
use crate::paths::{join_path, join_path_str};
use crate::taste::parse::{ContentRef, ParseKind, ParsedEvent};

verus! {

/// What reading a sidecar file gave.
#[derive(Debug, Clone, PartialEq, Eq)]
pub enum SidecarRead {
    /// The file's text.
    Found(String),
    /// No file at that path.
    NotFound,
    /// Any other failure, with its message.
    Failed(String),
}

/// Resolved snapshot content, including graceful degradation when sidecars are missing.
#[derive(Debug, Clone, PartialEq, Eq)]
pub enum ResolvedContent {
    Inline(String),
    Sidecar { content: String, backup_file_name: String, version: Option<u64> },
    MissingSidecar { backup_file_name: String, version: Option<u64>, path: String },
}

pub enum ResolvedView {
    Inline(Seq<char>),
    Sidecar { content: Seq<char>, backup_file_name: Seq<char>, version: Option<u64> },
    MissingSidecar { backup_file_name: Seq<char>, version: Option<u64>, path: Seq<char> },
}

impl View for ResolvedContent {
    type V = ResolvedView;

    open spec fn view(&self) -> ResolvedView {
        match self {
            ResolvedContent::Inline(s) => ResolvedView::Inline(s@),
            ResolvedContent::Sidecar { content, backup_file_name, version } => ResolvedView::Sidecar {
                content: content@,
                backup_file_name: backup_file_name@,
                version: *version,
            },
            ResolvedContent::MissingSidecar { backup_file_name, version, path } =>
                ResolvedView::MissingSidecar {
                backup_file_name: backup_file_name@,
                version: *version,
                path: path@,
            },
        }
    }
}

/// Reads `claude_cli` `backupFileName` snapshot blobs from `<history root>/<session>/`.
#[derive(Debug, Clone)]
pub struct SnapshotSidecarResolver {
    history_root: String,
}

/// Where the sidecar `backup_file_name` of session `session_id` lives.
pub open spec fn sidecar_path_spec(root: Seq<char>, session_id: Seq<char>, backup_file_name: Seq<
    char,
>) -> Seq<char> {
    join_path(join_path(root, session_id), backup_file_name)
}

/// What a read outcome resolves to.
pub open spec fn outcome_resolves(
    backup_file_name: Seq<char>,
    version: Option<u64>,
    path: Seq<char>,
    outcome: SidecarRead,
    r: Result<ResolvedContent, JottraceError>,
) -> bool {
    match outcome {
        SidecarRead::Found(content) => r is Ok && r->Ok_0@ == (ResolvedView::Sidecar {
            content: content@,
            backup_file_name,
            version,
        }),
        SidecarRead::NotFound => r is Ok && r->Ok_0@ == (ResolvedView::MissingSidecar {
            backup_file_name,
            version,
            path,
        }),
        SidecarRead::Failed(message) => r is Err && r->Err_0 is Io && r->Err_0->Io_path@ == path
            && r->Err_0->Io_message@ == message@,
    }
}

impl SnapshotSidecarResolver {
    pub closed spec fn root(&self) -> Seq<char> {
        self.history_root@
    }

    /// Resolve sidecars from a custom file-history root.
    pub fn with_history_root(history_root: &str) -> (r: Self)
        ensures
            r.root() == history_root@,
    {
        SnapshotSidecarResolver { history_root: crate::text::owned(history_root) }
    }

    pub fn history_root(&self) -> (r: &str)
        ensures
            r@ == self.root(),
    {
        self.history_root.as_str()
    }

    /// `<history root>/<session_id>/<backup_file_name>`.
    pub fn sidecar_path(&self, session_id: &str, backup_file_name: &str) -> (r: String)
        ensures
            r@ == sidecar_path_spec(self.root(), session_id@, backup_file_name@),
    {
        let dir = join_path_str(self.history_root.as_str(), session_id);
        join_path_str(dir.as_str(), backup_file_name)
    }

    /// What `content_ref` resolves to for session `session_id`, given what `read`
    /// returns for a sidecar path.
    #[verifier::opaque]
    pub open spec fn resolves_to<F: Fn(&str) -> SidecarRead>(
        &self,
        session_id: Seq<char>,
        content_ref: ContentRef,
        read: F,
        r: Result<ResolvedContent, JottraceError>,
    ) -> bool {
        match content_ref {
            ContentRef::Inline(text) => r is Ok && r->Ok_0@ == ResolvedView::Inline(text@),
            ContentRef::Sidecar { backup_file_name, version } => exists|
                path: &str,
                outcome: SidecarRead,
            |
                path@ == sidecar_path_spec(self.root(), session_id, backup_file_name@)
                    && call_ensures(read, (path,), outcome) && outcome_resolves(
                    backup_file_name@,
                    version,
                    path@,
                    outcome,
                    r,
                ),
        }
    }

    /// Resolves inline content directly and sidecar references by reading the
    /// sidecar: a missing file is reported as `MissingSidecar`, not as an error.
    pub fn resolve<F: Fn(&str) -> SidecarRead>(
        &self,
        session_id: &str,
        content_ref: &ContentRef,
        read: &F,
    ) -> (r: Result<ResolvedContent, JottraceError>)
        requires
            forall|path: &str| call_requires(*read, (path,)),
        ensures
            self.resolves_to(session_id@, *content_ref, *read, r),
    {
        proof {
            reveal(SnapshotSidecarResolver::resolves_to);
        }
        match content_ref {
            ContentRef::Inline(content) => Ok(ResolvedContent::Inline(content.clone())),
            ContentRef::Sidecar { backup_file_name, version } => {
                let path = self.sidecar_path(session_id, backup_file_name.as_str());
                let p = path.as_str();
                let outcome = read(p);
                let r = match outcome {
                    SidecarRead::Found(content) => Ok(
                        ResolvedContent::Sidecar {
                            content,
                            backup_file_name: backup_file_name.clone(),
                            version: *version,
                        },
                    ),
                    SidecarRead::NotFound => Ok(
                        ResolvedContent::MissingSidecar {
                            backup_file_name: backup_file_name.clone(),
                            version: *version,
                            path: path.clone(),
                        },
                    ),
                    SidecarRead::Failed(message) => Err(
                        JottraceError::Io { path: path.clone(), message },
                    ),
                };
                proof {
                    assert(outcome_resolves(backup_file_name@, *version, p@, outcome, r));
                }
                r
            },
        }
    }

    /// Resolves the content an event carries, if it carries any.
    pub fn resolve_event<F: Fn(&str) -> SidecarRead>(
        &self,
        session_id: &str,
        event: &ParsedEvent,
        read: &F,
    ) -> (r: Result<Option<ResolvedContent>, JottraceError>)
        requires
            forall|path: &str| call_requires(*read, (path,)),
        ensures
            match event.content_or_ref {
                None => r matches Ok(None),
                Some(c) => exists|inner: Result<ResolvedContent, JottraceError>|
                    self.resolves_to(session_id@, c, *read, inner) && match inner {
                        Ok(v) => r matches Ok(Some(w)) && w == v,
                        Err(e) => r matches Err(f) && f == e,
                    },
            },
    {
        match &event.content_or_ref {
            None => Ok(None),
            Some(content_ref) => {
                let inner = self.resolve(session_id, content_ref, read);
                match inner {
                    Ok(v) => Ok(Some(v)),
                    Err(e) => Err(e),
                }
            },
        }
    }
}

/// The snapshot events that carry content, as `(seq, content)`, in order.
pub open spec fn snapshot_refs(events: Seq<ParsedEvent>) -> Seq<(usize, ContentRef)>
    decreases events.len(),
{
    if events.len() == 0 {
        Seq::empty()
    } else {
        let before = snapshot_refs(events.drop_last());
        let e = events.last();
        if e.kind == ParseKind::FileSnapshot && e.content_or_ref is Some {
            before.push((e.seq, e.content_or_ref->0))
        } else {
            before
        }
    }
}

/// `out` lists, for each reference in `refs`, its seq and what it resolves to.
pub open spec fn resolved_all<F: Fn(&str) -> SidecarRead>(
    resolver: SnapshotSidecarResolver,
    session_id: Seq<char>,
    read: F,
    refs: Seq<(usize, ContentRef)>,
    out: Seq<(usize, ResolvedContent)>,
) -> bool {
    &&& out.len() == refs.len()
    &&& forall|j: int|
        0 <= j < out.len() ==> #[trigger] out[j].0 == refs[j].0 && resolver.resolves_to(
            session_id,
            refs[j].1,
            read,
            Ok(out[j].1),
        )
}

proof fn lemma_resolved_all_push<F: Fn(&str) -> SidecarRead>(
    resolver: SnapshotSidecarResolver,
    session_id: Seq<char>,
    read: F,
    refs: Seq<(usize, ContentRef)>,
    out: Seq<(usize, ResolvedContent)>,
    seq: usize,
    content_ref: ContentRef,
    content: ResolvedContent,
)
    requires
        resolved_all(resolver, session_id, read, refs, out),
        resolver.resolves_to(session_id, content_ref, read, Ok(content)),
    ensures
        resolved_all(resolver, session_id, read, refs.push((seq, content_ref)), out.push((seq, content))),
{
    let refs2 = refs.push((seq, content_ref));
    let out2 = out.push((seq, content));
    assert forall|j: int| 0 <= j < out2.len() implies #[trigger] out2[j].0 == refs2[j].0
        && resolver.resolves_to(session_id, refs2[j].1, read, Ok(out2[j].1)) by {
        if j < out.len() {
            assert(out2[j] == out[j] && refs2[j] == refs[j]);
        }
    }
}

impl SnapshotSidecarResolver {
    /// Resolves the content of every snapshot event, skipping other events and
    /// snapshots without content; the first failed read fails the whole call.
    pub fn resolve_snapshot_events<F: Fn(&str) -> SidecarRead>(
        &self,
        session_id: &str,
        events: &[ParsedEvent],
        read: &F,
    ) -> (r: Result<Vec<(usize, ResolvedContent)>, JottraceError>)
        requires
            forall|path: &str| call_requires(*read, (path,)),
        ensures
            match r {
                Ok(out) => resolved_all(*self, session_id@, *read, snapshot_refs(events@), out@),
                Err(e) => exists|j: int|
                    0 <= j < snapshot_refs(events@).len() && self.resolves_to(
                        session_id@,
                        #[trigger] snapshot_refs(events@)[j].1,
                        *read,
                        Err(e),
                    ),
            },
    {
        let mut resolved: Vec<(usize, ResolvedContent)> = Vec::new();
        let mut i: usize = 0;
        while i < events.len()
            invariant
                i <= events.len(),
                forall|path: &str| call_requires(*read, (path,)),
                resolved_all(*self, session_id@, *read, snapshot_refs(events@.take(i as int)), resolved@),
            decreases events.len() - i,
        {
            let event = &events[i];
            let ghost before = snapshot_refs(events@.take(i as int));
            proof {
                assert(events@.take(i + 1).drop_last() =~= events@.take(i as int));
                assert(events@.take(i + 1).last() == events@[i as int]);
            }
            let is_snapshot = match event.kind {
                ParseKind::FileSnapshot => true,
                _ => false,
            };
            if is_snapshot {
                match &event.content_or_ref {
                    Some(content_ref) => {
                        let r = self.resolve(session_id, content_ref, read);
                        proof {
                            assert(snapshot_refs(events@.take(i + 1)) == before.push(
                                (event.seq, *content_ref),
                            ));
                        }
                        match r {
                            Ok(content) => {
                                proof {
                                    lemma_resolved_all_push(
                                        *self,
                                        session_id@,
                                        *read,
                                        before,
                                        resolved@,
                                        event.seq,
                                        *content_ref,
                                        content,
                                    );
                                }
                                resolved.push((event.seq, content));
                            },
                            Err(e) => {
                                proof {
                                    lemma_refs_prefix(events@, i as int + 1);
                                    let j = before.len() as int;
                                    assert(snapshot_refs(events@)[j] == (event.seq, *content_ref));
                                    assert(self.resolves_to(
                                        session_id@,
                                        snapshot_refs(events@)[j].1,
                                        *read,
                                        Err(e),
                                    ));
                                }
                                return Err(e);
                            },
                        }
                    },
                    None => {
                        proof {
                            assert(snapshot_refs(events@.take(i + 1)) == before);
                        }
                    },
                }
            } else {
                proof {
                    assert(snapshot_refs(events@.take(i + 1)) == before);
                }
            }
            i = i + 1;
        }
        proof {
            assert(events@.take(events.len() as int) =~= events@);
        }
        Ok(resolved)
    }
}

proof fn lemma_refs_prefix(events: Seq<ParsedEvent>, n: int)
    requires
        0 <= n <= events.len(),
    ensures
        snapshot_refs(events.take(n)).len() <= snapshot_refs(events).len(),
        forall|j: int|
            0 <= j < snapshot_refs(events.take(n)).len() ==> #[trigger] snapshot_refs(events)[j]
                == snapshot_refs(events.take(n))[j],
    decreases events.len() - n,
{
    if n < events.len() {
        lemma_refs_prefix(events, n + 1);
        assert(events.take(n + 1).drop_last() =~= events.take(n));
    } else {
        assert(events.take(n) =~= events);
    }
}

} // verus!

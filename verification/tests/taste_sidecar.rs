use jottrace::taste::parse::{ContentRef, ParseKind, ParsedEvent, SourceStream};
use jottrace::taste::sidecar::{ResolvedContent, SidecarRead, SnapshotSidecarResolver};

fn no_file(_path: &str) -> SidecarRead {
    SidecarRead::NotFound
}

#[test]
fn sidecar_path_joins_history_root_session_and_blob_name() {
    let resolver = SnapshotSidecarResolver::with_history_root("/tmp/history");
    assert_eq!(resolver.sidecar_path("sess-1", "blob@v2"), "/tmp/history/sess-1/blob@v2");
}

#[test]
fn inline_content_ref_resolves_without_disk_access() {
    let resolver = SnapshotSidecarResolver::with_history_root("/does/not/exist");
    let read = |_p: &str| -> SidecarRead { panic!("no read expected") };
    let resolved = resolver
        .resolve("sess", &ContentRef::Inline("hello".to_string()), &read)
        .expect("inline resolve");
    assert_eq!(resolved, ResolvedContent::Inline("hello".to_string()));
}

#[test]
fn missing_sidecar_returns_missing_variant_not_error() {
    let resolver = SnapshotSidecarResolver::with_history_root("/does/not/exist");
    let resolved = resolver
        .resolve(
            "sess",
            &ContentRef::Sidecar { backup_file_name: "missing@v1".to_string(), version: Some(1) },
            &no_file,
        )
        .expect("missing sidecar");
    assert_eq!(
        resolved,
        ResolvedContent::MissingSidecar {
            backup_file_name: "missing@v1".to_string(),
            version: Some(1),
            path: "/does/not/exist/sess/missing@v1".to_string(),
        }
    );
}

#[test]
fn resolve_snapshot_events_skips_non_snapshot_rows() {
    let resolver = SnapshotSidecarResolver::with_history_root("/does/not/exist");
    let events = vec![
        ParsedEvent {
            seq: 0,
            timestamp: None,
            kind: ParseKind::ToolProposal,
            file_path: None,
            content_or_ref: Some(ContentRef::Inline("ignored".to_string())),
            tool_ref: None,
            tool_name: None,
            source_stream: SourceStream::Parent,
        },
        ParsedEvent {
            seq: 1,
            timestamp: None,
            kind: ParseKind::FileSnapshot,
            file_path: Some("src/a.rs".to_string()),
            content_or_ref: Some(ContentRef::Inline("snap".to_string())),
            tool_ref: None,
            tool_name: None,
            source_stream: SourceStream::Parent,
        },
    ];
    let resolved = resolver
        .resolve_snapshot_events("sess", &events, &no_file)
        .expect("resolve snapshots");
    assert_eq!(resolved.len(), 1);
    assert_eq!(resolved[0].0, 1);
    assert_eq!(resolved[0].1, ResolvedContent::Inline("snap".to_string()));
}

#[test]
fn found_sidecar_reads_the_joined_path() {
    let resolver = SnapshotSidecarResolver::with_history_root("/h");
    let read = |p: &str| -> SidecarRead {
        if p == "/h/s/blob@v3" {
            SidecarRead::Found("body".to_string())
        } else {
            SidecarRead::NotFound
        }
    };
    let resolved = resolver
        .resolve("s", &ContentRef::Sidecar { backup_file_name: "blob@v3".to_string(), version: None }, &read)
        .expect("found sidecar");
    assert_eq!(
        resolved,
        ResolvedContent::Sidecar {
            content: "body".to_string(),
            backup_file_name: "blob@v3".to_string(),
            version: None,
        }
    );
}

#[test]
fn failed_sidecar_read_is_an_io_error() {
    let resolver = SnapshotSidecarResolver::with_history_root("/h");
    let read = |_p: &str| -> SidecarRead { SidecarRead::Failed("denied".to_string()) };
    let result = resolver.resolve(
        "s",
        &ContentRef::Sidecar { backup_file_name: "b".to_string(), version: None },
        &read,
    );
    assert!(result.is_err());
}

use jottrace::taste::parse::{ContentRef, ParseKind, ParsedEvent, SourceStream};
use jottrace::taste::sidecar::{SidecarRead, SnapshotSidecarResolver};
use jottrace::taste::timeline::{normalize_file_path, FileTimelineMaterializer, TimelineSourceKind};

fn no_file(_path: &str) -> SidecarRead {
    SidecarRead::NotFound
}

fn snapshot_event(seq: usize, file_path: &str, content_ref: ContentRef, timestamp: &str) -> ParsedEvent {
    ParsedEvent {
        seq,
        timestamp: Some(timestamp.to_string()),
        kind: ParseKind::FileSnapshot,
        file_path: Some(file_path.to_string()),
        content_or_ref: Some(content_ref),
        tool_ref: None,
        tool_name: None,
        source_stream: SourceStream::Parent,
    }
}

#[test]
fn normalize_file_path_strips_session_cwd_prefix() {
    assert_eq!(
        normalize_file_path(
            "/Users/fixture/Workspace/jottrace/src/taste_target.rs",
            Some("/Users/fixture/Workspace/jottrace"),
        ),
        "src/taste_target.rs"
    );
}

#[test]
fn normalize_file_path_keeps_paths_outside_the_cwd() {
    assert_eq!(normalize_file_path("/etc/hosts", Some("/home/u/proj")), "/etc/hosts");
    assert_eq!(normalize_file_path("src/a.rs", None), "src/a.rs");
}

#[test]
fn materialize_assigns_per_file_seq_and_trigger_refs() {
    let resolver = SnapshotSidecarResolver::with_history_root("/does/not/exist");
    let events = vec![
        snapshot_event(0, "src/a.rs", ContentRef::Inline("v0".to_string()), "2026-06-17T10:00:00.000Z"),
        ParsedEvent {
            seq: 1,
            timestamp: Some("2026-06-17T10:00:01.000Z".to_string()),
            kind: ParseKind::ToolProposal,
            file_path: Some("src/a.rs".to_string()),
            content_or_ref: Some(ContentRef::Inline("proposal".to_string())),
            tool_ref: Some("toolu_edit".to_string()),
            tool_name: Some("Edit".to_string()),
            source_stream: SourceStream::Parent,
        },
        snapshot_event(2, "src/a.rs", ContentRef::Inline("v1".to_string()), "2026-06-17T10:00:02.000Z"),
    ];

    let rows = FileTimelineMaterializer::materialize("claude_cli", "sess", None, &resolver, &events, &no_file)
        .expect("materialize");

    assert_eq!(rows.len(), 2);
    assert_eq!(rows[0].seq, 0);
    assert_eq!(rows[0].content.as_deref(), Some("v0"));
    assert_eq!(rows[0].trigger_event_ref, None);
    assert_eq!(rows[0].source_kind, TimelineSourceKind::InlineSnapshot);

    assert_eq!(rows[1].seq, 1);
    assert_eq!(rows[1].content.as_deref(), Some("v1"));
    assert_eq!(rows[1].trigger_event_ref.as_deref(), Some("toolu_edit"));
}

#[test]
fn timeline_source_kind_names_round_trip() {
    for kind in [
        TimelineSourceKind::InlineSnapshot,
        TimelineSourceKind::SidecarSnapshot,
        TimelineSourceKind::MissingSidecar,
    ] {
        assert_eq!(TimelineSourceKind::from_db_str(kind.as_str()), Some(kind));
    }
    assert_eq!(TimelineSourceKind::from_db_str("bogus"), None);
}

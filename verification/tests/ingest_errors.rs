use jottrace::error::JottraceError;
use jottrace::ingest::{SourceFormat, StoredSession};
use jottrace::ingest_errors::{
    invalid_json_resolution_boundary, invalid_json_resolution_due, is_source_file_ingest_error,
    placeholder_to_remove, placeholder_to_rename, source_file_error_kind,
};

fn stored(id: i64, source_session_id: &str, generation: i64) -> StoredSession {
    StoredSession {
        id,
        source_session_id: source_session_id.to_string(),
        file_path: Some("/s/a.jsonl".to_string()),
        parent_session_id: None,
        current_generation: generation,
        file_size: None,
        file_mtime: None,
        content_fingerprint: None,
        source_metadata: None,
        next_read_offset: 0,
        event_count: 0,
        prefix_fingerprint: None,
    }
}

#[test]
fn file_errors_are_classified_by_kind() {
    let io = JottraceError::Io { path: "/a".to_string(), message: "denied".to_string() };
    let meta = JottraceError::InvalidSessionMeta { path: "/a".to_string(), message: "bad".to_string() };
    let not_file = JottraceError::NotFile("/a".to_string());
    let other = JottraceError::LockHeld("/l".to_string());
    assert_eq!(source_file_error_kind(&io), "read_error");
    assert_eq!(source_file_error_kind(&meta), "invalid_session_meta");
    assert_eq!(source_file_error_kind(&not_file), "not_file");
    assert_eq!(source_file_error_kind(&other), "ingest_error");
    assert!(is_source_file_ingest_error(&io));
    assert!(is_source_file_ingest_error(&meta));
    assert!(is_source_file_ingest_error(&not_file));
    assert!(!is_source_file_ingest_error(&other));
}

#[test]
fn invalid_json_errors_resolve_only_after_a_full_read() {
    assert!(invalid_json_resolution_due(10, 10, true));
    assert!(!invalid_json_resolution_due(9, 10, true));
    assert!(!invalid_json_resolution_due(10, 10, false));
    assert_eq!(invalid_json_resolution_boundary(SourceFormat::Jsonl, b"{}\n{\"a\"", 8), Some(3));
    assert_eq!(invalid_json_resolution_boundary(SourceFormat::GeminiChatJson, b"{}", 2), Some(2));
}

#[test]
fn only_empty_placeholders_change_identity() {
    assert_eq!(placeholder_to_rename(&Some(stored(7, "old", 0)), "new"), Some(7));
    assert_eq!(placeholder_to_rename(&Some(stored(7, "new", 0)), "new"), None);
    assert_eq!(placeholder_to_rename(&Some(stored(7, "old", 1)), "new"), None);
    assert_eq!(placeholder_to_rename(&None, "new"), None);
    assert_eq!(placeholder_to_remove(&Some(stored(3, "x", 0))), Some(3));
    assert_eq!(placeholder_to_remove(&Some(stored(3, "x", 2))), None);
}

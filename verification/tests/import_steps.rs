use jottrace::import_steps::{
    committed_line_spans, consumed_prefix_fingerprint, empty_codex_file_session, identity_step,
    plan_line_import, pre_read_step, IdentityStep, PreReadStep, SourceSessionIdKind,
};
use jottrace::ingest::{append_prefix_intact, StoredSession};
use jottrace::session_meta::EventHeader;

fn stored() -> StoredSession {
    StoredSession {
        id: 1,
        source_session_id: "known".to_string(),
        file_path: Some("/f.jsonl".to_string()),
        parent_session_id: None,
        current_generation: 0,
        file_size: Some(10),
        file_mtime: Some(7),
        content_fingerprint: Some("fp".to_string()),
        source_metadata: None,
        next_read_offset: 10,
        event_count: 2,
        prefix_fingerprint: None,
    }
}

fn header(ts: &str) -> EventHeader {
    EventHeader {
        id: None,
        event_type: None,
        cwd: Some("/w".to_string()),
        timestamp: Some(ts.to_string()),
        audit_timestamp: None,
        snapshot_timestamp: None,
        payload_id: None,
        payload_cwd: None,
        payload_timestamp: None,
    }
}

#[test]
fn unchanged_files_are_not_read() {
    let s = Some(stored());
    assert_eq!(pre_read_step(&s, false, 10, Some(7), "/f.jsonl", None, None), PreReadStep::UpToDate);
    assert_eq!(pre_read_step(&s, false, 10, Some(7), "/moved.jsonl", None, None), PreReadStep::Refresh);
    assert_eq!(pre_read_step(&s, true, 10, Some(7), "/f.jsonl", None, None), PreReadStep::Read);
    assert_eq!(pre_read_step(&s, false, 11, Some(7), "/f.jsonl", None, None), PreReadStep::Read);
    assert_eq!(pre_read_step(&None, false, 10, Some(7), "/f.jsonl", None, None), PreReadStep::Read);
}

#[test]
fn identity_is_reused_for_unchanged_files() {
    let s = Some(stored());
    assert_eq!(identity_step(SourceSessionIdKind::Known, &s, 10, Some(7)), IdentityStep::Keep);
    assert_eq!(identity_step(SourceSessionIdKind::CodexSessionMeta, &s, 10, Some(7)), IdentityStep::Reuse("known".to_string()));
    assert_eq!(identity_step(SourceSessionIdKind::CodexSessionMeta, &s, 11, Some(7)), IdentityStep::ReadHeader);
    assert_eq!(empty_codex_file_session(&s).as_deref(), Some("known"));
    let mut placeholder = stored();
    placeholder.next_read_offset = 0;
    placeholder.event_count = 0;
    placeholder.content_fingerprint = None;
    assert_eq!(empty_codex_file_session(&Some(placeholder)), None);
}

#[test]
fn lines_import_up_to_the_first_invalid_one() {
    let buffer = b"zero\n{a}\n{b}\nbad\n{c}\n";
    let spans = committed_line_spans(buffer, 5, buffer.len());
    assert_eq!(spans, vec![(5, 8), (9, 12), (13, 16), (17, 20)]);
    let headers = vec![
        Ok(header("t2")),
        Ok(header("t1")),
        Err("expected value".to_string()),
        Ok(header("t3")),
    ];
    let plan = plan_line_import("claude_cli", buffer, 5, buffer.len(), &spans, &headers);
    assert_eq!(plan.events.len(), 2);
    assert_eq!(plan.events[0].seq, 1);
    assert_eq!(plan.events[1].seq, 2);
    assert_eq!(plan.events[1].ts.as_deref(), Some("t1"));
    assert_eq!(plan.next_read_offset, 13);
    assert_eq!(plan.metadata.started_at.as_deref(), Some("t1"));
    assert_eq!(plan.metadata.ended_at.as_deref(), Some("t2"));
    assert_eq!(plan.metadata.cwd.as_deref(), Some("/w"));
    let bad = plan.invalid.expect("invalid line");
    assert_eq!(bad.byte_offset, 13);
    assert_eq!(bad.line_number, 4);
    assert_eq!(bad.message, "expected value");
}

#[test]
fn recorded_prefix_is_accepted_after_an_append() {
    let first = b"one\ntwo\n";
    let fp = consumed_prefix_fingerprint(first, 8);
    let grown = b"one\ntwo\nthree\n";
    assert!(append_prefix_intact(8, Some(&fp), grown));
    assert!(!append_prefix_intact(8, Some(&fp), b"uno\ntwo\nthree\n"));
}

use jottrace::error::JottraceError;
use jottrace::session_meta::{
    capture_metadata, capture_metadata_timestamp, codex_session_id, epoch_millis_to_utc_iso,
    event_timestamp, factory_session_id, first_committed_line, gemini_session_id,
    integer_timestamp_to_epoch_millis, local_agent_fallback_session_id, metadata_timestamp,
    pi_agent_nested_run_info, pi_source_session_id_from_path, EventHeader, ParsedMetadata,
    TimestampValue,
};

const UUID: &str = "95d258fd-2c38-4e97-97cb-8fff360d3de3";

fn header() -> EventHeader {
    EventHeader {
        id: None,
        event_type: None,
        cwd: None,
        timestamp: None,
        audit_timestamp: None,
        snapshot_timestamp: None,
        payload_id: None,
        payload_cwd: None,
        payload_timestamp: None,
    }
}

#[test]
fn timestamps_widen_the_activity_window() {
    let mut m = ParsedMetadata::empty();
    capture_metadata_timestamp(&mut m, "2026-01-02T00:00:00Z");
    capture_metadata_timestamp(&mut m, "2026-01-01T00:00:00Z");
    capture_metadata_timestamp(&mut m, "2026-01-03T00:00:00Z");
    assert_eq!(m.started_at.as_deref(), Some("2026-01-01T00:00:00Z"));
    assert_eq!(m.ended_at.as_deref(), Some("2026-01-03T00:00:00Z"));
}

#[test]
fn codex_lines_fall_back_to_payload_cwd_and_timestamp() {
    let mut h = header();
    h.payload_cwd = Some("/work".to_string());
    h.payload_timestamp = Some("t1".to_string());
    let mut m = ParsedMetadata::empty();
    capture_metadata(&mut m, "codex_cli", &h);
    assert_eq!(m.cwd.as_deref(), Some("/work"));
    assert_eq!(m.started_at.as_deref(), Some("t1"));
    let mut other = ParsedMetadata::empty();
    capture_metadata(&mut other, "claude_cli", &h);
    assert_eq!(other.cwd, None);
    assert_eq!(event_timestamp("claude_cli", &h), None);
    h.snapshot_timestamp = Some("snap".to_string());
    assert_eq!(event_timestamp("codex_cli", &h).as_deref(), Some("snap"));
}

#[test]
fn fill_missing_keeps_known_fields() {
    let mut m = ParsedMetadata { cwd: Some("a".to_string()), started_at: None, ended_at: None };
    m.fill_missing_from(ParsedMetadata {
        cwd: Some("b".to_string()),
        started_at: Some("s".to_string()),
        ended_at: None,
    });
    assert_eq!(m.cwd.as_deref(), Some("a"));
    assert_eq!(m.started_at.as_deref(), Some("s"));
    assert_eq!(m.ended_at, None);
}

#[test]
fn numeric_timestamps_render_in_utc() {
    assert_eq!(integer_timestamp_to_epoch_millis(1_700_000_000), Some(1_700_000_000_000));
    assert_eq!(integer_timestamp_to_epoch_millis(1_700_000_000_123), Some(1_700_000_000_123));
    assert_eq!(integer_timestamp_to_epoch_millis(i128::MIN), None);
    assert_eq!(epoch_millis_to_utc_iso(0).as_deref(), Some("1970-01-01T00:00:00.000Z"));
    assert_eq!(epoch_millis_to_utc_iso(1_709_164_800_042).as_deref(), Some("2024-02-29T00:00:00.042Z"));
    assert_eq!(epoch_millis_to_utc_iso(-1).as_deref(), Some("1969-12-31T23:59:59.999Z"));
    assert_eq!(epoch_millis_to_utc_iso(-62_167_219_200_001), None);
    assert_eq!(
        metadata_timestamp("/m.json", "createdAt", Some(&TimestampValue::Integer(1_700_000_000))).unwrap(),
        Some("2023-11-14T22:13:20.000Z".to_string())
    );
    assert_eq!(metadata_timestamp("/m.json", "createdAt", None).unwrap(), None);
    let err = metadata_timestamp("/m.json", "createdAt", Some(&TimestampValue::Other)).unwrap_err();
    assert_eq!(
        err,
        JottraceError::InvalidSessionMeta {
            path: "/m.json".to_string(),
            message: "local-agent createdAt timestamp must be a string or number".to_string(),
        }
    );
}

#[test]
fn first_line_needs_a_newline_within_the_limit() {
    assert_eq!(first_committed_line("/f", b"abc\ndef", 100, "missing").unwrap(), Some(b"abc".to_vec()));
    assert_eq!(first_committed_line("/f", b"abcd", 4, "missing").unwrap(), None);
    assert!(first_committed_line("/f", b"abc", 100, "missing").is_err());
}

#[test]
fn session_ids_from_first_lines() {
    let mut h = header();
    h.event_type = Some("session_meta".to_string());
    h.payload_id = Some("codex-1".to_string());
    assert_eq!(codex_session_id("/c", &h).unwrap(), "codex-1");
    let mut legacy = header();
    legacy.id = Some(UUID.to_string());
    legacy.timestamp = Some("t".to_string());
    assert_eq!(codex_session_id("/c", &legacy).unwrap(), UUID);
    legacy.id = Some("not-a-uuid".to_string());
    assert!(codex_session_id("/c", &legacy).is_err());
    let mut f = header();
    f.event_type = Some("session_start".to_string());
    f.id = Some("fac".to_string());
    assert_eq!(factory_session_id("/f", &f).unwrap(), "fac");
    f.id = Some(String::new());
    assert_eq!(
        factory_session_id("/f", &f).unwrap_err().to_message(),
        "/f: factory session_start id is missing"
    );
    assert!(gemini_session_id("/g", "  ").is_err());
    assert_eq!(gemini_session_id("/g", "g-1").unwrap(), "g-1");
}

#[test]
fn session_ids_from_paths() {
    assert_eq!(pi_source_session_id_from_path("/s/2026_abc.jsonl").unwrap(), "abc");
    assert_eq!(pi_source_session_id_from_path("/s/plain.jsonl").unwrap(), "plain");
    assert!(pi_source_session_id_from_path("/s/ends_.jsonl").is_err());
    assert_eq!(local_agent_fallback_session_id("/x/local_abc/audit.jsonl").unwrap(), "abc");
    assert_eq!(local_agent_fallback_session_id("/x/other/audit.jsonl").unwrap(), "other");
    let path = format!("/runs/2026_{UUID}/short/run-12/session.jsonl");
    assert_eq!(
        pi_agent_nested_run_info(&path),
        Some((UUID.to_string(), format!("2026_{UUID}/short/run-12")))
    );
    assert_eq!(pi_agent_nested_run_info("/runs/x_y/short/run-1/session.jsonl"), None);
    assert_eq!(pi_agent_nested_run_info(&format!("/runs/2026_{UUID}/short/run-x/session.jsonl")), None);
}

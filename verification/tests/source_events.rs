use jottrace::source_events::{
    hermes_message_event_id, source_events_fingerprint, sort_source_events, sqlite_snapshot_step,
    OpenCodeTable, SnapshotStep, SourceEvent,
};
use jottrace::ingest::{fingerprint, StoredSession};

fn event(sort_time: i64, rank: i64, id: &str) -> SourceEvent {
    SourceEvent { sort_time, rank, id: id.to_string(), ts: None, payload: id.as_bytes().to_vec() }
}

fn stored(fp: Option<&str>) -> StoredSession {
    StoredSession {
        id: 1,
        source_session_id: "s".to_string(),
        file_path: Some("/db".to_string()),
        parent_session_id: None,
        current_generation: 2,
        file_size: Some(10),
        file_mtime: Some(5),
        content_fingerprint: fp.map(str::to_string),
        source_metadata: Some("{}".to_string()),
        next_read_offset: 3,
        event_count: 3,
        prefix_fingerprint: None,
    }
}

#[test]
fn rows_sort_by_time_rank_then_id_stably() {
    let sorted = sort_source_events(vec![event(2, 1, "b"), event(1, 2, "z"), event(2, 0, "a"), event(2, 1, "a")]);
    let ids: Vec<(i64, i64, &str)> = sorted.iter().map(|e| (e.sort_time, e.rank, e.id.as_str())).collect();
    assert_eq!(ids, vec![(1, 2, "z"), (2, 0, "a"), (2, 1, "a"), (2, 1, "b")]);
}

#[test]
fn fingerprint_hashes_payloads_with_newlines() {
    let events = vec![event(0, 0, "ab"), event(0, 0, "c")];
    assert_eq!(source_events_fingerprint(&events), fingerprint(b"ab\nc\n"));
}

#[test]
fn hermes_ids_are_zero_padded() {
    assert_eq!(hermes_message_event_id(42), "00000000000000000042");
    assert_eq!(hermes_message_event_id(-5), "-0000000000000000005");
    assert_eq!(OpenCodeTable::Part.name(), "part");
    assert_eq!(OpenCodeTable::SessionMessage.rank(), 3);
}

#[test]
fn snapshot_steps() {
    assert_eq!(sqlite_snapshot_step(&None, "f", "/db", 10, Some(5), None, "{}"), Some(SnapshotStep::Import { generation: 0 }));
    let same = stored(Some("f"));
    assert_eq!(sqlite_snapshot_step(&Some(same.clone()), "f", "/db", 10, Some(5), None, "{}"), Some(SnapshotStep::UpToDate));
    assert_eq!(sqlite_snapshot_step(&Some(same), "f", "/db", 11, Some(5), None, "{}"), Some(SnapshotStep::Refresh));
    assert_eq!(
        sqlite_snapshot_step(&Some(stored(Some("old"))), "f", "/db", 10, Some(5), None, "{}"),
        Some(SnapshotStep::Import { generation: 3 })
    );
}

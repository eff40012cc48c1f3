use jottrace::ingest::{append_prefix_intact, fingerprint, parents_last_order, source_session_ids_from_path, IngestTally};

const UUID_A: &str = "95d258fd-2c38-4e97-97cb-8fff360d3de3";

fn ids(path: &str) -> (String, Option<String>) {
    source_session_ids_from_path(path).expect("derive session ids")
}

#[test]
fn workflow_journals_in_different_dirs_get_distinct_ids() {
    let (one, parent_one) = ids(&format!(
        "/home/u/.transcripts/projects/-proj/{UUID_A}/subagents/workflows/wf_ea989e2b-1d9/journal.jsonl"
    ));
    let (two, parent_two) = ids(&format!(
        "/home/u/.transcripts/projects/-proj/{UUID_A}/subagents/workflows/wf_ab3bff12-fa4/journal.jsonl"
    ));
    assert_ne!(one, two);
    assert_eq!(parent_one.as_deref(), Some(UUID_A));
    assert_eq!(parent_two.as_deref(), Some(UUID_A));
    assert_eq!(one, format!("{UUID_A}/subagents/workflows/wf_ea989e2b-1d9/journal"));
    assert_eq!(two, format!("{UUID_A}/subagents/workflows/wf_ab3bff12-fa4/journal"));
}

#[test]
fn direct_subagent_files_keep_their_existing_id_shape() {
    let (id, parent) = ids(&format!(
        "/home/u/.transcripts/projects/-proj/{UUID_A}/subagents/agent-a000000000000021.jsonl"
    ));
    assert_eq!(parent.as_deref(), Some(UUID_A));
    assert_eq!(id, format!("{UUID_A}/subagents/agent-a000000000000021"));
}

#[test]
fn top_level_session_files_keep_a_bare_stem_and_no_parent() {
    let (id, parent) = ids(&format!("/home/u/.transcripts/projects/-proj/{UUID_A}.jsonl"));
    assert_eq!(id, UUID_A);
    assert_eq!(parent, None);
}

#[test]
fn prefix_is_trivially_intact_at_offset_zero() {
    assert!(append_prefix_intact(0, None, b""));
    assert!(append_prefix_intact(0, Some("does-not-matter"), b"line\n"));
}

#[test]
fn prefix_is_stale_when_offset_exceeds_buffer() {
    assert!(!append_prefix_intact(100, None, b"short\n"));
}

#[test]
fn prefix_fingerprint_match_decides_when_present() {
    let buffer = b"first\nsecond\n";
    let consumed = fingerprint(&buffer[..6]);
    assert!(append_prefix_intact(6, Some(&consumed), buffer));
    assert!(!append_prefix_intact(6, Some("0000000000000000"), buffer));
}

#[test]
fn legacy_rows_fall_back_to_a_newline_boundary_check() {
    let buffer = b"first\nsecond\n";
    assert!(append_prefix_intact(6, None, buffer));
    assert!(!append_prefix_intact(3, None, buffer));
}

#[test]
fn parent_sessions_are_ingested_before_their_children() {
    assert_eq!(parents_last_order(&[true, false, true, false, false]), vec![1, 3, 4, 0, 2]);
    assert_eq!(parents_last_order(&[false, false]), vec![0, 1]);
    assert_eq!(parents_last_order(&[true]), vec![0]);
    assert!(parents_last_order(&[]).is_empty());
}

#[test]
fn subagent_ids_are_children_of_their_parent_and_differ_from_top_level_ids() {
    let (top, none) = ids(&format!("/home/u/.transcripts/projects/-proj/{UUID_A}.jsonl"));
    assert_eq!(top, UUID_A);
    assert_eq!(none, None);
    assert!(!top.contains('/'));
    let (child, parent) = ids(&format!("/home/u/.transcripts/projects/-proj/{UUID_A}/subagents/agent-x1.jsonl"));
    assert_eq!(parent.as_deref(), Some(UUID_A));
    assert_eq!(child, format!("{UUID_A}/subagents/agent-x1"));
    assert_ne!(child, top);
}

#[test]
fn a_pass_counts_inserted_events_and_files_that_inserted_none() {
    let mut first = IngestTally::new();
    for inserted in [3, 0, 2] {
        first.record_file(inserted);
    }
    assert_eq!(first, IngestTally { inserted_event_count: 5, skipped_file_count: 1 });
    let mut second = IngestTally::new();
    for _ in 0..3 {
        second.record_file(0);
    }
    assert_eq!(second, IngestTally { inserted_event_count: 0, skipped_file_count: 3 });
}

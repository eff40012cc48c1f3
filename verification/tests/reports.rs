use jottrace::compact::{CompactMode, CompactReport};
use jottrace::ingest::IngestReport;
use jottrace::journal::DoctorReport;
use jottrace::reports::{
    compact_report_lines, doctor_report_lines, ingest_report_lines, taste_example_report_lines,
    taste_timeline_report_lines,
};
use jottrace::storage::IngestErrorSummary;
use jottrace::taste::compiler::{EvidenceKind, PreferenceExample, PreferenceOutcome};
use jottrace::taste::show::TasteTimelineShowReport;
use jottrace::taste::timeline::{FileTimelineRow, TimelineSourceKind};

fn compact_report(mode: CompactMode) -> CompactReport {
    CompactReport {
        db_path: "/j/db.sqlite".to_string(),
        mode,
        batch_size: 1000,
        raw_events_before: 1,
        zstd_events_before: 2,
        raw_events_after: 3,
        zstd_events_after: 4,
        unsupported_codec_events: 5,
        eligible_raw_events: 6,
        converted_events: 7,
        skipped_raw_events: 8,
        skipped_small_events: 9,
        skipped_not_smaller_events: 10,
        skipped_round_trip_failed_events: 11,
        stored_bytes_before: 12,
        stored_bytes_after: 13,
        estimated_bytes_saved: 14,
        sqlite_reclaimable_bytes_before: 15,
        sqlite_reclaimable_bytes: 16,
        unresolved_ingest_errors: 17,
    }
}

#[test]
fn dry_run_report_without_details() {
    let lines = compact_report_lines(&compact_report(CompactMode::DryRun), false);
    assert_eq!(
        lines,
        vec![
            "jottrace compact",
            "mode: dry-run",
            "eligible_raw_events: 6",
            "estimated_bytes_saved: 14",
            "unresolved_ingest_errors: 17",
            "next: rerun with `jottrace compact --apply` to rewrite eligible payloads",
        ]
    );
}

#[test]
fn apply_report_mentions_conversions_and_reclaim() {
    let lines = compact_report_lines(&compact_report(CompactMode::Apply), false);
    assert!(lines.contains(&"converted_events: 7".to_string()));
    assert!(lines.contains(&"sqlite_reclaimable_bytes: 16".to_string()));
    assert_eq!(
        lines.last().map(String::as_str),
        Some("disk_reclaim: after applying, run `jottrace compact --vacuum` to reclaim free SQLite pages")
    );
    let detailed = compact_report_lines(&compact_report(CompactMode::Vacuum), true);
    assert!(detailed.contains(&"db: /j/db.sqlite".to_string()));
    assert!(!detailed.iter().any(|l| l.starts_with("batch_size")));
}

#[test]
fn ingest_and_doctor_reports() {
    let report = IngestReport {
        db_path: "/j/db.sqlite".to_string(),
        file_count: 1,
        session_count: 2,
        event_count: 3,
        inserted_event_count: 4,
        skipped_file_count: 5,
        unresolved_ingest_error_count: 6,
    };
    assert_eq!(ingest_report_lines(&report, false)[1], "files: 1");
    assert_eq!(ingest_report_lines(&report, true)[1], "db: /j/db.sqlite");
    let error = IngestErrorSummary {
        source: "codex_cli".to_string(),
        source_session_id: None,
        file_path: "/f.jsonl".to_string(),
        generation: Some(0),
        byte_offset: Some(12),
        line_number: Some(3),
        error_kind: "invalid_json".to_string(),
        message: "bad".to_string(),
        first_seen_at: "a".to_string(),
        last_seen_at: "b".to_string(),
        occurrence_count: 2,
    };
    let doctor = DoctorReport {
        data_dir: "/j".to_string(),
        unresolved_ingest_error_count: 1,
        recent_ingest_errors: vec![error],
    };
    let brief = doctor_report_lines(&doctor, false);
    assert_eq!(brief.last().map(String::as_str), Some("next: run `jottrace doctor --details` to inspect recent ingest errors"));
    let full = doctor_report_lines(&doctor, true);
    assert_eq!(full[1], "data_dir: /j (ok)");
    assert!(full.contains(&"recent_ingest_errors: 1".to_string()));
    assert!(full.contains(&"  line: 3".to_string()));
    assert!(!full.iter().any(|l| l.starts_with("  source_session_id")));
}

#[test]
fn taste_reports() {
    let example = PreferenceExample {
        source: "claude_cli".to_string(),
        source_session_id: "s".to_string(),
        generation: 0,
        proposal_event_seq: 4,
        tool_use_id: "toolu".to_string(),
        file_path: None,
        tool_name: "Edit".to_string(),
        proposal_content: Some("new".to_string()),
        context: None,
        outcome: PreferenceOutcome::Accepted,
        confidence: 85,
        evidence_kind: EvidenceKind::DirectEdit,
        extractor_version: "0.1.0".to_string(),
    };
    let lines = taste_example_report_lines(&example);
    assert!(lines.contains(&"file: -".to_string()));
    assert!(lines.contains(&"confidence: 0.85".to_string()));
    assert_eq!(lines.last().map(String::as_str), Some("<missing context>"));
    let mut whole = example.clone();
    whole.confidence = 100;
    assert!(taste_example_report_lines(&whole).contains(&"confidence: 1".to_string()));
    whole.confidence = 50;
    assert!(taste_example_report_lines(&whole).contains(&"confidence: 0.5".to_string()));

    let row = |seq| FileTimelineRow {
        source: "claude_cli".to_string(),
        source_session_id: "s".to_string(),
        file_path: "a.rs".to_string(),
        seq,
        event_seq: seq * 2,
        content: None,
        trigger_event_ref: None,
        source_kind: TimelineSourceKind::InlineSnapshot,
    };
    let report = TasteTimelineShowReport {
        db_path: "/j".to_string(),
        source_session_id: "s".to_string(),
        file_path: "a.rs".to_string(),
        rows: vec![row(0), row(1)],
    };
    let lines = taste_timeline_report_lines(&report);
    assert_eq!(
        lines,
        vec![
            "jottrace taste show timeline",
            "session: s",
            "file: a.rs",
            "rows: 2",
            "seq 0 (event_seq 0) [inline_snapshot] trigger=-",
            "<missing content>",
            "",
            "seq 1 (event_seq 2) [inline_snapshot] trigger=-",
            "<missing content>",
        ]
    );
}

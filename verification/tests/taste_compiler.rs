use jottrace::taste::compiler::{
    effect_present, partial_effect_present, EvidenceKind, PreferenceCompiler, PreferenceOutcome,
    HIGH_CONFIDENCE_THRESHOLD,
};
use jottrace::taste::parse::{ContentRef, ParseKind, ParsedEvent, SourceStream};
use jottrace::taste::timeline::{FileTimelineRow, TimelineSourceKind};

fn timeline_row(file_path: &str, seq: usize, event_seq: usize, content: &str, trigger: Option<&str>) -> FileTimelineRow {
    FileTimelineRow {
        source: "claude_cli".to_string(),
        source_session_id: "sess".to_string(),
        file_path: file_path.to_string(),
        seq,
        event_seq,
        content: Some(content.to_string()),
        trigger_event_ref: trigger.map(str::to_string),
        source_kind: TimelineSourceKind::InlineSnapshot,
    }
}

fn proposal(seq: usize, tool_use_id: &str, tool_name: &str, file_path: Option<&str>, proposal_content: Option<&str>) -> ParsedEvent {
    ParsedEvent {
        seq,
        timestamp: None,
        kind: ParseKind::ToolProposal,
        file_path: file_path.map(str::to_string),
        content_or_ref: proposal_content.map(|content| ContentRef::Inline(content.to_string())),
        tool_ref: Some(tool_use_id.to_string()),
        tool_name: Some(tool_name.to_string()),
        source_stream: SourceStream::Parent,
    }
}

#[test]
fn effect_present_detects_persisted_and_reverted_deltas() {
    let before = "a\nb\n";
    let after = "a\nb\nc\n";
    assert!(effect_present(before, after, "a\nb\nc\n"));
    assert!(!effect_present(before, after, "a\nb\n"));
}

#[test]
fn partial_effect_keeps_some_but_not_all_added_lines() {
    let before = "a\n";
    let after = "a\nb\nc\n";
    assert!(partial_effect_present(before, after, "a\nb\n"));
    assert!(!partial_effect_present(before, after, "a\n"));
}

#[test]
fn compiler_labels_permission_denial_as_rejected() {
    let events = vec![
        proposal(1, "toolu_denied", "Edit", Some("src/a.rs"), Some("new")),
        ParsedEvent {
            seq: 2,
            timestamp: None,
            kind: ParseKind::PermissionDenial,
            file_path: None,
            content_or_ref: None,
            tool_ref: Some("toolu_denied".to_string()),
            tool_name: None,
            source_stream: SourceStream::Parent,
        },
    ];
    let rows = vec![timeline_row("src/a.rs", 0, 0, "base\n", None)];

    let examples = PreferenceCompiler::compile("claude_cli", "sess", None, &events, &rows);
    assert_eq!(examples.len(), 1);
    assert_eq!(examples[0].outcome, PreferenceOutcome::Rejected);
    assert_eq!(examples[0].evidence_kind, EvidenceKind::PermissionDenial);
    // Confidence is kept in hundredths: 100 stands for 1.0.
    assert_eq!(examples[0].confidence, HIGH_CONFIDENCE_THRESHOLD);
    assert_eq!(examples[0].confidence, 100);
}

#[test]
fn compiler_detects_reverted_edit_as_rejected_at_session_end() {
    let events = vec![proposal(1, "toolu_edit", "Edit", Some("src/a.rs"), Some("added\n"))];
    let rows = vec![
        timeline_row("src/a.rs", 0, 0, "base\n", None),
        timeline_row("src/a.rs", 1, 2, "base\nadded\n", Some("toolu_edit")),
        timeline_row("src/a.rs", 2, 4, "base\n", Some("toolu_revert")),
    ];

    let examples = PreferenceCompiler::compile("claude_cli", "sess", None, &events, &rows);
    assert_eq!(examples[0].outcome, PreferenceOutcome::Rejected);
}

#[test]
fn compiler_accepts_an_edit_that_survives() {
    let events = vec![proposal(1, "toolu_edit", "Edit", Some("src/a.rs"), Some("added\n"))];
    let rows = vec![
        timeline_row("src/a.rs", 0, 0, "base\n", None),
        timeline_row("src/a.rs", 1, 2, "base\nadded\n", Some("toolu_edit")),
    ];
    let examples = PreferenceCompiler::compile("claude_cli", "sess", None, &events, &rows);
    assert_eq!(examples.len(), 1);
    assert_eq!(examples[0].outcome, PreferenceOutcome::Accepted);
    assert_eq!(examples[0].tool_use_id, "toolu_edit");
}

#[test]
fn outcome_and_evidence_names_round_trip() {
    for o in [PreferenceOutcome::Accepted, PreferenceOutcome::Rejected, PreferenceOutcome::Edited] {
        assert_eq!(PreferenceOutcome::from_db_str(o.as_str()), Some(o));
    }
    for k in [
        EvidenceKind::DirectEdit,
        EvidenceKind::DirectWrite,
        EvidenceKind::BashCorrelation,
        EvidenceKind::PermissionDenial,
        EvidenceKind::MissingFinalState,
    ] {
        assert_eq!(EvidenceKind::from_db_str(k.as_str()), Some(k));
    }
    assert_eq!(EvidenceKind::from_db_str("other"), None);
}

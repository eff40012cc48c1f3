use jottrace::json::{decode_json, JsonValue};
use jottrace::taste::parse::{
    merge_streams, parse_claude_line, parse_jsonl, ClaudeSessionParser, SessionEventParser, timestamp_key, ContentRef, ParseKind, ParsedEvent,
    SourceStream,
};

fn decode(line: &[u8]) -> JsonValue {
    decode_json(line).expect("valid json")
}

fn event(seq: usize, timestamp: Option<&str>, tool_ref: Option<&str>, stream: SourceStream) -> ParsedEvent {
    ParsedEvent {
        seq,
        timestamp: timestamp.map(str::to_string),
        kind: ParseKind::ToolResult,
        file_path: None,
        content_or_ref: None,
        tool_ref: tool_ref.map(str::to_string),
        tool_name: None,
        source_stream: stream,
    }
}

#[test]
fn merge_streams_orders_by_timestamp_then_seq() {
    let mut parent = event(1, Some("2026-06-17T10:00:02.000Z"), Some("parent"), SourceStream::Parent);
    parent.kind = ParseKind::ToolProposal;
    let sub_stream = SourceStream::Subagent { agent_id: "agent-1".to_string() };
    let mut sub = event(0, Some("2026-06-17T10:00:02.500Z"), Some("sub"), sub_stream.clone());
    sub.kind = ParseKind::ToolProposal;
    let merged = merge_streams(vec![
        (SourceStream::Parent, vec![parent]),
        (sub_stream, vec![sub]),
    ]);
    assert_eq!(merged.len(), 2);
    assert_eq!(merged[0].tool_ref.as_deref(), Some("parent"));
    assert_eq!(merged[1].tool_ref.as_deref(), Some("sub"));
    assert_eq!(merged[0].seq, 0);
    assert_eq!(merged[1].seq, 1);
}

#[test]
fn parse_snapshot_list_and_dict_shapes() {
    let list_line = br#"{"type":"file-history-snapshot","snapshot":{"trackedFileBackups":[{"filePath":"/tmp/a.rs","content":"inline"}]}}"#;
    let dict_line = br#"{"type":"file-history-snapshot","snapshot":{"trackedFileBackups":{"src/a.rs":{"backupFileName":"blob@v1","version":1}}}}"#;

    let list = parse_claude_line(0, &SourceStream::Parent, &decode(list_line));
    assert_eq!(list.len(), 1);
    assert_eq!(list[0].file_path.as_deref(), Some("/tmp/a.rs"));
    assert_eq!(list[0].content_or_ref, Some(ContentRef::Inline("inline".to_string())));

    let dict = parse_claude_line(1, &SourceStream::Parent, &decode(dict_line));
    assert_eq!(dict.len(), 1);
    assert_eq!(dict[0].file_path.as_deref(), Some("src/a.rs"));
    assert_eq!(
        dict[0].content_or_ref,
        Some(ContentRef::Sidecar { backup_file_name: "blob@v1".to_string(), version: Some(1) })
    );
}

#[test]
fn permission_denial_is_detected_from_tool_result_text() {
    let line = br#"{"type":"user","message":{"role":"user","content":[{"type":"tool_result","tool_use_id":"tool-deny","content":"new_string was NOT written"}]}}"#;
    let events = parse_claude_line(0, &SourceStream::Parent, &decode(line));
    assert_eq!(events.len(), 1);
    assert_eq!(events[0].kind, ParseKind::PermissionDenial);
    assert_eq!(events[0].tool_ref.as_deref(), Some("tool-deny"));
}

#[test]
fn merge_stream_timestamp_ordering_is_stable() {
    let earlier = event(5, Some("a"), None, SourceStream::Parent);
    let later = event(1, Some("b"), None, SourceStream::Parent);
    let merged = merge_streams(vec![(SourceStream::Parent, vec![later, earlier])]);
    assert_eq!(merged[0].timestamp.as_deref(), Some("a"));
    assert_eq!(merged[1].timestamp.as_deref(), Some("b"));
}

#[test]
fn timestamp_key_handles_missing_timestamp() {
    let e = event(0, None, None, SourceStream::Parent);
    assert_eq!(timestamp_key(&e), "");
}

#[test]
fn ordering_uses_seq_when_timestamps_match() {
    let left = event(1, Some("same"), None, SourceStream::Parent);
    let right = event(2, Some("same"), None, SourceStream::Parent);
    assert_eq!(timestamp_key(&left).cmp(&timestamp_key(&right)), std::cmp::Ordering::Equal);
    assert_eq!(left.seq.cmp(&right.seq), std::cmp::Ordering::Less);
}

#[test]
fn merge_keeps_equal_timestamps_in_stream_order() {
    let a = event(0, Some("t"), Some("first"), SourceStream::Parent);
    let b = event(1, Some("t"), Some("second"), SourceStream::Parent);
    let merged = merge_streams(vec![(SourceStream::Parent, vec![a, b])]);
    assert_eq!(merged[0].tool_ref.as_deref(), Some("first"));
    assert_eq!(merged[1].tool_ref.as_deref(), Some("second"));
}

#[test]
fn assistant_edit_becomes_a_tool_proposal() {
    let line = br#"{"type":"assistant","timestamp":"2026-06-17T10:00:00.000Z","message":{"content":[{"type":"tool_use","id":"toolu_1","name":"Edit","input":{"file_path":"src/a.rs","new_string":"x"}}]}}"#;
    let events = parse_claude_line(3, &SourceStream::Parent, &decode(line));
    assert_eq!(events.len(), 1);
    assert_eq!(events[0].kind, ParseKind::ToolProposal);
    assert_eq!(events[0].seq, 3);
    assert_eq!(events[0].tool_ref.as_deref(), Some("toolu_1"));
    assert_eq!(events[0].tool_name.as_deref(), Some("Edit"));
    assert_eq!(events[0].timestamp.as_deref(), Some("2026-06-17T10:00:00.000Z"));
}

#[test]
fn unknown_line_types_give_no_events() {
    let events = parse_claude_line(0, &SourceStream::Parent, &decode(br#"{"type":"summary"}"#));
    assert!(events.is_empty());
}

#[test]
fn raw_lines_are_decoded_then_parsed_in_order() {
    let parser = ClaudeSessionParser;
    assert_eq!(parser.source(), "claude_cli");
    assert!(parser.parse_line(0, &SourceStream::Parent, b"[1,").is_err());
    let ok = br#"{"type":"user","message":{"content":"hi"}}"#.to_vec();
    assert_eq!(parse_jsonl(&SourceStream::Parent, &[ok.clone()]).expect("all JSON"), Vec::<ParsedEvent>::new());
    let failed = parse_jsonl(&SourceStream::Parent, &[ok, b"nope".to_vec()]).expect_err("second line is not JSON");
    assert!(!failed.is_empty());
}

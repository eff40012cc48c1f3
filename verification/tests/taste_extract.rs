use jottrace::taste::extract::{
    count_merged_session_events, extract_session, subagent_agent_id, ExtractFailure, SessionLines,
};
use jottrace::taste::sidecar::{SidecarRead, SnapshotSidecarResolver};

#[test]
fn subagent_agent_id_extracts_suffix_after_subagents_marker() {
    assert_eq!(
        subagent_agent_id("00000000-0000-4000-8000-000000000031/subagents/agent-taste000000000001"),
        "agent-taste000000000001"
    );
}

#[test]
fn subagent_agent_id_falls_back_to_full_id_without_marker() {
    assert_eq!(subagent_agent_id("agent-a000000000000021"), "agent-a000000000000021");
}

#[test]
fn merged_event_count_adds_parent_and_children() {
    assert_eq!(count_merged_session_events(3, 4), 7);
}

fn line(text: &str) -> Vec<u8> {
    text.as_bytes().to_vec()
}

#[test]
fn extraction_reports_the_first_stream_that_is_not_json() {
    let resolver = SnapshotSidecarResolver::with_history_root("/nowhere");
    let read = |_path: &str| SidecarRead::NotFound;
    let good = line(r#"{"type":"user","message":{"content":"hi"}}"#);
    let bad = line("{not json");
    let children = vec![
        SessionLines { source_session_id: "p/subagents/agent-a".to_string(), lines: vec![good.clone()] },
        SessionLines { source_session_id: "p/subagents/agent-b".to_string(), lines: vec![bad.clone()] },
        SessionLines { source_session_id: "p/subagents/agent-c".to_string(), lines: vec![bad.clone()] },
    ];
    match extract_session("p", None, &resolver, &[good.clone(), bad.clone()], &children, &read) {
        Err(ExtractFailure::InvalidJson { source_session_id, .. }) => assert_eq!(source_session_id, "p"),
        _ => panic!("the parent's lines are not all JSON"),
    }
    match extract_session("p", None, &resolver, &[good.clone()], &children, &read) {
        Err(ExtractFailure::InvalidJson { source_session_id, message }) => {
            assert_eq!(source_session_id, "p/subagents/agent-b");
            assert!(!message.is_empty());
        }
        _ => panic!("the second child's lines are not all JSON"),
    }
}

#[test]
fn extraction_without_sidecars_succeeds() {
    let resolver = SnapshotSidecarResolver::with_history_root("/nowhere");
    let read = |_path: &str| SidecarRead::Failed("unreadable".to_string());
    let lines = vec![line(r#"{"type":"user","message":{"content":"hi"}}"#)];
    match extract_session("p", Some("/w"), &resolver, &lines, &[], &read) {
        Ok(extracted) => {
            assert!(extracted.timeline_rows.is_empty());
            assert!(extracted.examples.is_empty());
        }
        Err(_) => panic!("nothing needed reading"),
    }
}

use jottrace::json::{decode_json, encode_json, encode_json_string, json_text_column, JsonNumber, JsonValue};
use jottrace::hermes::{hermes_message_payload, hermes_session_payload, HermesMessageRow, HermesSessionRow};
use jottrace::opencode::{opencode_row_event, opencode_session_payload, OpenCodeProjectRow, OpenCodeRow, OpenCodeSessionRow};
use jottrace::session_meta::factory_source_metadata;
use jottrace::source_events::OpenCodeTable;
use jottrace::storage::check_event_codecs;
use jottrace::error::JottraceError;

fn member<'a>(value: &'a JsonValue, key: &str) -> &'a JsonValue {
    value.get(key).expect("member present")
}

#[test]
fn documents_are_written_as_serde_json_writes_them() {
    let doc = JsonValue::Object(vec![
        ("b".to_string(), JsonValue::Number(JsonNumber { signed: Some(-1), unsigned: None })),
        ("a".to_string(), JsonValue::String("x\"y".to_string())),
        ("c".to_string(), JsonValue::Fractional("1.5".to_string())),
        ("d".to_string(), JsonValue::Array(vec![JsonValue::Null, JsonValue::Bool(true)])),
    ]);
    assert_eq!(encode_json(&doc), br#"{"a":"x\"y","b":-1,"c":1.5,"d":[null,true]}"#.to_vec());
    assert_eq!(encode_json_string(&doc), r#"{"a":"x\"y","b":-1,"c":1.5,"d":[null,true]}"#);
    let back = decode_json(&encode_json(&doc)).expect("valid JSON");
    assert_eq!(member(&back, "c"), &JsonValue::Fractional("1.5".to_string()));
}

#[test]
fn text_columns_hold_json_or_plain_text() {
    assert_eq!(json_text_column(None), JsonValue::Null);
    assert_eq!(json_text_column(Some("not json".to_string())), JsonValue::String("not json".to_string()));
    assert_eq!(
        json_text_column(Some("[7]".to_string())),
        JsonValue::Array(vec![JsonValue::Number(JsonNumber { signed: Some(7), unsigned: Some(7) })])
    );
}

fn session_row() -> OpenCodeSessionRow {
    OpenCodeSessionRow {
        id: "ses_1".to_string(),
        project_id: "prj".to_string(),
        parent_id: None,
        slug: "slug".to_string(),
        directory: "/work".to_string(),
        title: "Title".to_string(),
        version: "1".to_string(),
        share_url: None,
        summary_additions: Some(3),
        summary_deletions: None,
        summary_files: None,
        summary_diffs: Some("[]".to_string()),
        revert: None,
        permission: Some("oops".to_string()),
        time_created: 1000,
        time_updated: 2000,
        time_compacting: None,
        time_archived: None,
        workspace_id: None,
        time_created_iso: Some("1970-01-01T00:00:01.000Z".to_string()),
        time_updated_iso: Some("1970-01-01T00:00:02.000Z".to_string()),
    }
}

fn no_project() -> OpenCodeProjectRow {
    OpenCodeProjectRow {
        id: None,
        worktree: None,
        vcs: None,
        name: None,
        icon_url: None,
        icon_color: None,
        time_created: None,
        time_updated: None,
        time_initialized: None,
        sandboxes: None,
        commands: None,
        time_created_iso: None,
        time_updated_iso: None,
        time_initialized_iso: None,
    }
}

#[test]
fn an_opencode_session_row_becomes_the_first_event() {
    let (event, metadata, source_metadata) = opencode_session_payload(&session_row(), &no_project());
    assert_eq!((event.sort_time, event.rank, event.id.as_str()), (1000, 0, "ses_1"));
    assert_eq!(event.ts.as_deref(), Some("1970-01-01T00:00:01.000Z"));
    assert_eq!(metadata.cwd.as_deref(), Some("/work"));
    assert_eq!(metadata.ended_at.as_deref(), Some("1970-01-01T00:00:02.000Z"));
    let payload = decode_json(&event.payload).expect("payload is JSON");
    assert_eq!(member(&payload, "type"), &JsonValue::String("session".to_string()));
    let row = member(&payload, "row");
    assert_eq!(member(row, "summary_diffs"), &JsonValue::Array(vec![]));
    assert_eq!(member(row, "permission"), &JsonValue::String("oops".to_string()));
    assert_eq!(member(member(&payload, "project"), "id"), &JsonValue::Null);
    let meta = decode_json(source_metadata.as_bytes()).expect("metadata is JSON");
    assert_eq!(member(member(&meta, "session"), "slug"), &JsonValue::String("slug".to_string()));
}

#[test]
fn an_opencode_table_row_becomes_an_event_of_its_rank() {
    let row = OpenCodeRow {
        id: "prt_1".to_string(),
        session_id: "ses_1".to_string(),
        message_id: Some("msg_1".to_string()),
        source_type: None,
        time_created: 5,
        time_updated: 6,
        time_created_iso: None,
        time_updated_iso: None,
        data: r#"{"text":"hi"}"#.to_string(),
    };
    let event = opencode_row_event(OpenCodeTable::Part, &row);
    assert_eq!((event.sort_time, event.rank, event.id.as_str(), event.ts.is_none()), (5, 2, "prt_1", true));
    let payload = decode_json(&event.payload).expect("payload is JSON");
    assert_eq!(member(&payload, "table"), &JsonValue::String("part".to_string()));
    assert_eq!(member(member(member(&payload, "row"), "data"), "text"), &JsonValue::String("hi".to_string()));
}

#[test]
fn factory_metadata_records_the_settings_or_why_they_are_not_json() {
    let ok = factory_source_metadata("/s.settings.json", 8, Some(9), br#"{"k":1}"#);
    let doc = decode_json(ok.as_bytes()).expect("metadata is JSON");
    assert_eq!(member(&doc, "settings_path"), &JsonValue::String("/s.settings.json".to_string()));
    assert_eq!(member(&doc, "settings_parse_error"), &JsonValue::Null);
    assert!(matches!(member(&doc, "settings"), JsonValue::Object(_)));
    let bad = factory_source_metadata("/s.settings.json", 3, None, b"{{{");
    let doc = decode_json(bad.as_bytes()).expect("metadata is JSON");
    assert_eq!(member(&doc, "settings"), &JsonValue::Null);
    assert_eq!(member(&doc, "settings_file_mtime"), &JsonValue::Null);
    assert!(matches!(member(&doc, "settings_parse_error"), JsonValue::String(_)));
}

#[test]
fn every_codec_is_checked_before_payloads_are_read() {
    assert!(check_event_codecs(&["raw".to_string(), "zstd".to_string()]).is_ok());
    match check_event_codecs(&["raw".to_string(), "lz4".to_string(), "br".to_string()]) {
        Err(JottraceError::UnsupportedEventPayloadCodec { codec }) => assert_eq!(codec, "lz4"),
        other => panic!("unexpected {other:?}"),
    }
}

fn hermes_session_row() -> HermesSessionRow {
    HermesSessionRow {
        id: "20250101_abc".to_string(),
        source: "cli".to_string(),
        user_id: None,
        model: Some("m1".to_string()),
        model_config: Some(r#"{"temperature":0}"#.to_string()),
        system_prompt: None,
        parent_session_id: None,
        started_at: JsonValue::Fractional("1712345678.1234567".to_string()),
        ended_at: JsonValue::Null,
        end_reason: None,
        message_count: Some(2),
        tool_call_count: Some(0),
        input_tokens: None,
        output_tokens: None,
        cache_read_tokens: None,
        cache_write_tokens: None,
        reasoning_tokens: None,
        billing_provider: None,
        billing_base_url: None,
        billing_mode: None,
        estimated_cost_usd: JsonValue::Fractional("0.25".to_string()),
        actual_cost_usd: JsonValue::Null,
        cost_status: None,
        cost_source: None,
        pricing_version: None,
        title: Some("T".to_string()),
        api_call_count: None,
        started_at_iso: Some("2024-04-05T19:34:38.123Z".to_string()),
        ended_at_iso: None,
        sort_time: 1712345678123456,
    }
}

#[test]
fn a_hermes_session_row_becomes_the_first_event() {
    let (event, metadata, source_metadata) = hermes_session_payload("20250101_abc", hermes_session_row());
    assert_eq!((event.sort_time, event.rank, event.id.as_str()), (1712345678123456, 0, "20250101_abc"));
    assert_eq!(event.ts.as_deref(), Some("2024-04-05T19:34:38.123Z"));
    assert_eq!((metadata.cwd, metadata.ended_at), (None, None));
    assert_eq!(metadata.started_at.as_deref(), Some("2024-04-05T19:34:38.123Z"));
    let payload = decode_json(&event.payload).expect("payload is JSON");
    assert_eq!(member(&payload, "table"), &JsonValue::String("sessions".to_string()));
    let row = member(&payload, "row");
    assert_eq!(member(row, "started_at"), &JsonValue::Fractional("1712345678.1234567".to_string()));
    assert_eq!(member(row, "estimated_cost_usd"), &JsonValue::Fractional("0.25".to_string()));
    assert_eq!(
        member(member(row, "model_config"), "temperature"),
        &JsonValue::Number(JsonNumber { signed: Some(0), unsigned: Some(0) })
    );
    assert_eq!(
        source_metadata,
        r#"{"session":{"ended_at_iso":null,"id":"20250101_abc","message_count":2,"model":"m1","parent_session_id":null,"source":"cli","started_at_iso":"2024-04-05T19:34:38.123Z","title":"T","tool_call_count":0}}"#
    );
}

#[test]
fn a_hermes_message_row_becomes_an_event_under_its_padded_id() {
    let row = HermesMessageRow {
        id: 42,
        session_id: "20250101_abc".to_string(),
        role: "user".to_string(),
        content: Some("hi".to_string()),
        tool_call_id: None,
        tool_calls: Some("not json".to_string()),
        tool_name: None,
        timestamp: JsonValue::Fractional("1712345679.5".to_string()),
        token_count: Some(3),
        finish_reason: None,
        reasoning: None,
        reasoning_details: None,
        codex_reasoning_items: Some("[1]".to_string()),
        reasoning_content: None,
        codex_message_items: None,
        timestamp_iso: Some("2024-04-05T19:34:39.500Z".to_string()),
        sort_time: 1712345679500000,
    };
    let event = hermes_message_payload(row);
    assert_eq!((event.sort_time, event.rank, event.id.as_str()), (1712345679500000, 1, "00000000000000000042"));
    assert_eq!(event.ts.as_deref(), Some("2024-04-05T19:34:39.500Z"));
    assert_eq!(
        String::from_utf8(event.payload).expect("UTF-8"),
        r#"{"row":{"codex_message_items":null,"codex_reasoning_items":[1],"content":"hi","finish_reason":null,"id":42,"reasoning":null,"reasoning_content":null,"reasoning_details":null,"role":"user","session_id":"20250101_abc","timestamp":1712345679.5,"timestamp_iso":"2024-04-05T19:34:39.500Z","token_count":3,"tool_call_id":null,"tool_calls":"not json","tool_name":null},"table":"messages","type":"message"}"#
    );
}

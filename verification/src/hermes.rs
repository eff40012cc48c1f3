//! Hermes SessionDB stores: the JSON payload of the session event and of each
//! message event, and the session metadata built from the rows of a store.
//!
//! The `REAL` columns of the store arrive as decoded JSON numbers, so that the
//! payloads carry them exactly as the store's reader gave them.
use vstd::prelude::*;

use crate::json::{
    column_is, column_value, encode_json, encode_json_string, int_json, int_value, json_text, obj_members,
    opt_int_json, opt_int_value, opt_text_is, opt_text_value, push_member, text_is, text_value, JsonValue,
};
use crate::session_meta::{MetadataView, ParsedMetadata};
use crate::source_events::{hermes_message_event_id, padded_id, SourceEvent};
use crate::text::{opt_view, owned};

verus! {

/// The columns of a Hermes `sessions` row, with the ISO forms of its times and
/// the time it sorts by (microseconds since the epoch).
pub struct HermesSessionRow {
    pub id: String,
    pub source: String,
    pub user_id: Option<String>,
    pub model: Option<String>,
    pub model_config: Option<String>,
    pub system_prompt: Option<String>,
    pub parent_session_id: Option<String>,
    pub started_at: JsonValue,
    pub ended_at: JsonValue,
    pub end_reason: Option<String>,
    pub message_count: Option<i64>,
    pub tool_call_count: Option<i64>,
    pub input_tokens: Option<i64>,
    pub output_tokens: Option<i64>,
    pub cache_read_tokens: Option<i64>,
    pub cache_write_tokens: Option<i64>,
    pub reasoning_tokens: Option<i64>,
    pub billing_provider: Option<String>,
    pub billing_base_url: Option<String>,
    pub billing_mode: Option<String>,
    pub estimated_cost_usd: JsonValue,
    pub actual_cost_usd: JsonValue,
    pub cost_status: Option<String>,
    pub cost_source: Option<String>,
    pub pricing_version: Option<String>,
    pub title: Option<String>,
    pub api_call_count: Option<i64>,
    pub started_at_iso: Option<String>,
    pub ended_at_iso: Option<String>,
    pub sort_time: i64,
}

/// The columns of a Hermes `messages` row, with the ISO form of its time and
/// the time it sorts by (microseconds since the epoch).
pub struct HermesMessageRow {
    pub id: i64,
    pub session_id: String,
    pub role: String,
    pub content: Option<String>,
    pub tool_call_id: Option<String>,
    pub tool_calls: Option<String>,
    pub tool_name: Option<String>,
    pub timestamp: JsonValue,
    pub token_count: Option<i64>,
    pub finish_reason: Option<String>,
    pub reasoning: Option<String>,
    pub reasoning_details: Option<String>,
    pub codex_reasoning_items: Option<String>,
    pub reasoning_content: Option<String>,
    pub codex_message_items: Option<String>,
    pub timestamp_iso: Option<String>,
    pub sort_time: i64,
}

/// The `row` object of a session event: every column, JSON text columns decoded.
pub open spec fn hermes_session_row_is(v: JsonValue, row: HermesSessionRow) -> bool {
    let ms = obj_members(v);
    &&& v is Object
    &&& ms.len() == 29
    &&& ms[0].0@ == "id"@ && text_is(ms[0].1, row.id@)
    &&& ms[1].0@ == "source"@ && text_is(ms[1].1, row.source@)
    &&& ms[2].0@ == "user_id"@ && opt_text_is(ms[2].1, opt_view(row.user_id))
    &&& ms[3].0@ == "model"@ && opt_text_is(ms[3].1, opt_view(row.model))
    &&& ms[4].0@ == "model_config"@ && column_is(ms[4].1, opt_view(row.model_config))
    &&& ms[5].0@ == "system_prompt"@ && opt_text_is(ms[5].1, opt_view(row.system_prompt))
    &&& ms[6].0@ == "parent_session_id"@ && opt_text_is(ms[6].1, opt_view(row.parent_session_id))
    &&& ms[7].0@ == "started_at"@ && ms[7].1 == row.started_at
    &&& ms[8].0@ == "ended_at"@ && ms[8].1 == row.ended_at
    &&& ms[9].0@ == "end_reason"@ && opt_text_is(ms[9].1, opt_view(row.end_reason))
    &&& ms[10].0@ == "message_count"@ && ms[10].1 == opt_int_json(row.message_count)
    &&& ms[11].0@ == "tool_call_count"@ && ms[11].1 == opt_int_json(row.tool_call_count)
    &&& ms[12].0@ == "input_tokens"@ && ms[12].1 == opt_int_json(row.input_tokens)
    &&& ms[13].0@ == "output_tokens"@ && ms[13].1 == opt_int_json(row.output_tokens)
    &&& ms[14].0@ == "cache_read_tokens"@ && ms[14].1 == opt_int_json(row.cache_read_tokens)
    &&& ms[15].0@ == "cache_write_tokens"@ && ms[15].1 == opt_int_json(row.cache_write_tokens)
    &&& ms[16].0@ == "reasoning_tokens"@ && ms[16].1 == opt_int_json(row.reasoning_tokens)
    &&& ms[17].0@ == "billing_provider"@ && opt_text_is(ms[17].1, opt_view(row.billing_provider))
    &&& ms[18].0@ == "billing_base_url"@ && opt_text_is(ms[18].1, opt_view(row.billing_base_url))
    &&& ms[19].0@ == "billing_mode"@ && opt_text_is(ms[19].1, opt_view(row.billing_mode))
    &&& ms[20].0@ == "estimated_cost_usd"@ && ms[20].1 == row.estimated_cost_usd
    &&& ms[21].0@ == "actual_cost_usd"@ && ms[21].1 == row.actual_cost_usd
    &&& ms[22].0@ == "cost_status"@ && opt_text_is(ms[22].1, opt_view(row.cost_status))
    &&& ms[23].0@ == "cost_source"@ && opt_text_is(ms[23].1, opt_view(row.cost_source))
    &&& ms[24].0@ == "pricing_version"@ && opt_text_is(ms[24].1, opt_view(row.pricing_version))
    &&& ms[25].0@ == "title"@ && opt_text_is(ms[25].1, opt_view(row.title))
    &&& ms[26].0@ == "api_call_count"@ && ms[26].1 == opt_int_json(row.api_call_count)
    &&& ms[27].0@ == "started_at_iso"@ && opt_text_is(ms[27].1, opt_view(row.started_at_iso))
    &&& ms[28].0@ == "ended_at_iso"@ && opt_text_is(ms[28].1, opt_view(row.ended_at_iso))
}

/// The payload of a session event: its type and table, and the session row.
pub open spec fn hermes_session_payload_is(v: JsonValue, row: HermesSessionRow) -> bool {
    let ms = obj_members(v);
    &&& v is Object && ms.len() == 3
    &&& ms[0].0@ == "type"@ && text_is(ms[0].1, "session"@)
    &&& ms[1].0@ == "table"@ && text_is(ms[1].1, "sessions"@)
    &&& ms[2].0@ == "row"@ && hermes_session_row_is(ms[2].1, row)
}

/// The source metadata of a Hermes session: a summary of its session row.
pub open spec fn hermes_session_metadata_is(v: JsonValue, row: HermesSessionRow) -> bool {
    let ms = obj_members(v);
    let s = obj_members(ms[0].1);
    &&& v is Object && ms.len() == 1
    &&& ms[0].0@ == "session"@ && ms[0].1 is Object && s.len() == 9
    &&& s[0].0@ == "id"@ && text_is(s[0].1, row.id@)
    &&& s[1].0@ == "source"@ && text_is(s[1].1, row.source@)
    &&& s[2].0@ == "model"@ && opt_text_is(s[2].1, opt_view(row.model))
    &&& s[3].0@ == "parent_session_id"@ && opt_text_is(s[3].1, opt_view(row.parent_session_id))
    &&& s[4].0@ == "title"@ && opt_text_is(s[4].1, opt_view(row.title))
    &&& s[5].0@ == "message_count"@ && s[5].1 == opt_int_json(row.message_count)
    &&& s[6].0@ == "tool_call_count"@ && s[6].1 == opt_int_json(row.tool_call_count)
    &&& s[7].0@ == "started_at_iso"@ && opt_text_is(s[7].1, opt_view(row.started_at_iso))
    &&& s[8].0@ == "ended_at_iso"@ && opt_text_is(s[8].1, opt_view(row.ended_at_iso))
}

/// The `row` object of a message event: every column, JSON text columns decoded.
pub open spec fn hermes_message_row_is(v: JsonValue, row: HermesMessageRow) -> bool {
    let ms = obj_members(v);
    &&& v is Object
    &&& ms.len() == 16
    &&& ms[0].0@ == "id"@ && ms[0].1 == int_json(row.id)
    &&& ms[1].0@ == "session_id"@ && text_is(ms[1].1, row.session_id@)
    &&& ms[2].0@ == "role"@ && text_is(ms[2].1, row.role@)
    &&& ms[3].0@ == "content"@ && opt_text_is(ms[3].1, opt_view(row.content))
    &&& ms[4].0@ == "tool_call_id"@ && opt_text_is(ms[4].1, opt_view(row.tool_call_id))
    &&& ms[5].0@ == "tool_calls"@ && column_is(ms[5].1, opt_view(row.tool_calls))
    &&& ms[6].0@ == "tool_name"@ && opt_text_is(ms[6].1, opt_view(row.tool_name))
    &&& ms[7].0@ == "timestamp"@ && ms[7].1 == row.timestamp
    &&& ms[8].0@ == "token_count"@ && ms[8].1 == opt_int_json(row.token_count)
    &&& ms[9].0@ == "finish_reason"@ && opt_text_is(ms[9].1, opt_view(row.finish_reason))
    &&& ms[10].0@ == "reasoning"@ && opt_text_is(ms[10].1, opt_view(row.reasoning))
    &&& ms[11].0@ == "reasoning_details"@ && column_is(ms[11].1, opt_view(row.reasoning_details))
    &&& ms[12].0@ == "codex_reasoning_items"@ && column_is(ms[12].1, opt_view(row.codex_reasoning_items))
    &&& ms[13].0@ == "reasoning_content"@ && opt_text_is(ms[13].1, opt_view(row.reasoning_content))
    &&& ms[14].0@ == "codex_message_items"@ && column_is(ms[14].1, opt_view(row.codex_message_items))
    &&& ms[15].0@ == "timestamp_iso"@ && opt_text_is(ms[15].1, opt_view(row.timestamp_iso))
}

/// The payload of a message event: its type and table, and the message row.
pub open spec fn hermes_message_payload_is(v: JsonValue, row: HermesMessageRow) -> bool {
    let ms = obj_members(v);
    &&& v is Object && ms.len() == 3
    &&& ms[0].0@ == "type"@ && text_is(ms[0].1, "message"@)
    &&& ms[1].0@ == "table"@ && text_is(ms[1].1, "messages"@)
    &&& ms[2].0@ == "row"@ && hermes_message_row_is(ms[2].1, row)
}

/// A copy of optional text.
fn copy_opt(o: &Option<String>) -> (r: Option<String>)
    ensures
        opt_view(r) == opt_view(*o),
{
    match o {
        Some(t) => Some(owned(t.as_str())),
        None => None,
    }
}

/// The summary of a session row kept as the session's source metadata.
fn hermes_metadata_value(row: &HermesSessionRow) -> (r: JsonValue)
    ensures
        hermes_session_metadata_is(r, *row),
{
    let mut s: Vec<(String, JsonValue)> = Vec::new();
    push_member(&mut s, "id", text_value(row.id.as_str()));
    push_member(&mut s, "source", text_value(row.source.as_str()));
    push_member(&mut s, "model", opt_text_value(&row.model));
    push_member(&mut s, "parent_session_id", opt_text_value(&row.parent_session_id));
    push_member(&mut s, "title", opt_text_value(&row.title));
    push_member(&mut s, "message_count", opt_int_value(row.message_count));
    push_member(&mut s, "tool_call_count", opt_int_value(row.tool_call_count));
    push_member(&mut s, "started_at_iso", opt_text_value(&row.started_at_iso));
    push_member(&mut s, "ended_at_iso", opt_text_value(&row.ended_at_iso));
    let mut ms: Vec<(String, JsonValue)> = Vec::new();
    push_member(&mut ms, "session", JsonValue::Object(s));
    JsonValue::Object(ms)
}

/// The `row` object of a session event; the row's numbers move into it.
fn hermes_session_row_value(row: HermesSessionRow) -> (r: JsonValue)
    ensures
        hermes_session_row_is(r, row),
{
    let HermesSessionRow {
        id,
        source,
        user_id,
        model,
        model_config,
        system_prompt,
        parent_session_id,
        started_at,
        ended_at,
        end_reason,
        message_count,
        tool_call_count,
        input_tokens,
        output_tokens,
        cache_read_tokens,
        cache_write_tokens,
        reasoning_tokens,
        billing_provider,
        billing_base_url,
        billing_mode,
        estimated_cost_usd,
        actual_cost_usd,
        cost_status,
        cost_source,
        pricing_version,
        title,
        api_call_count,
        started_at_iso,
        ended_at_iso,
        sort_time: _,
    } = row;
    let mut ms: Vec<(String, JsonValue)> = Vec::new();
    push_member(&mut ms, "id", text_value(id.as_str()));
    push_member(&mut ms, "source", text_value(source.as_str()));
    push_member(&mut ms, "user_id", opt_text_value(&user_id));
    push_member(&mut ms, "model", opt_text_value(&model));
    push_member(&mut ms, "model_config", column_value(&model_config));
    push_member(&mut ms, "system_prompt", opt_text_value(&system_prompt));
    push_member(&mut ms, "parent_session_id", opt_text_value(&parent_session_id));
    push_member(&mut ms, "started_at", started_at);
    push_member(&mut ms, "ended_at", ended_at);
    push_member(&mut ms, "end_reason", opt_text_value(&end_reason));
    push_member(&mut ms, "message_count", opt_int_value(message_count));
    push_member(&mut ms, "tool_call_count", opt_int_value(tool_call_count));
    push_member(&mut ms, "input_tokens", opt_int_value(input_tokens));
    push_member(&mut ms, "output_tokens", opt_int_value(output_tokens));
    push_member(&mut ms, "cache_read_tokens", opt_int_value(cache_read_tokens));
    push_member(&mut ms, "cache_write_tokens", opt_int_value(cache_write_tokens));
    push_member(&mut ms, "reasoning_tokens", opt_int_value(reasoning_tokens));
    push_member(&mut ms, "billing_provider", opt_text_value(&billing_provider));
    push_member(&mut ms, "billing_base_url", opt_text_value(&billing_base_url));
    push_member(&mut ms, "billing_mode", opt_text_value(&billing_mode));
    push_member(&mut ms, "estimated_cost_usd", estimated_cost_usd);
    push_member(&mut ms, "actual_cost_usd", actual_cost_usd);
    push_member(&mut ms, "cost_status", opt_text_value(&cost_status));
    push_member(&mut ms, "cost_source", opt_text_value(&cost_source));
    push_member(&mut ms, "pricing_version", opt_text_value(&pricing_version));
    push_member(&mut ms, "title", opt_text_value(&title));
    push_member(&mut ms, "api_call_count", opt_int_value(api_call_count));
    push_member(&mut ms, "started_at_iso", opt_text_value(&started_at_iso));
    push_member(&mut ms, "ended_at_iso", opt_text_value(&ended_at_iso));
    JsonValue::Object(ms)
}

/// The `row` object of a message event; the row's timestamp moves into it.
fn hermes_message_row_value(row: HermesMessageRow) -> (r: JsonValue)
    ensures
        hermes_message_row_is(r, row),
{
    let HermesMessageRow {
        id,
        session_id,
        role,
        content,
        tool_call_id,
        tool_calls,
        tool_name,
        timestamp,
        token_count,
        finish_reason,
        reasoning,
        reasoning_details,
        codex_reasoning_items,
        reasoning_content,
        codex_message_items,
        timestamp_iso,
        sort_time: _,
    } = row;
    let mut ms: Vec<(String, JsonValue)> = Vec::new();
    push_member(&mut ms, "id", int_value(id));
    push_member(&mut ms, "session_id", text_value(session_id.as_str()));
    push_member(&mut ms, "role", text_value(role.as_str()));
    push_member(&mut ms, "content", opt_text_value(&content));
    push_member(&mut ms, "tool_call_id", opt_text_value(&tool_call_id));
    push_member(&mut ms, "tool_calls", column_value(&tool_calls));
    push_member(&mut ms, "tool_name", opt_text_value(&tool_name));
    push_member(&mut ms, "timestamp", timestamp);
    push_member(&mut ms, "token_count", opt_int_value(token_count));
    push_member(&mut ms, "finish_reason", opt_text_value(&finish_reason));
    push_member(&mut ms, "reasoning", opt_text_value(&reasoning));
    push_member(&mut ms, "reasoning_details", column_value(&reasoning_details));
    push_member(&mut ms, "codex_reasoning_items", column_value(&codex_reasoning_items));
    push_member(&mut ms, "reasoning_content", opt_text_value(&reasoning_content));
    push_member(&mut ms, "codex_message_items", column_value(&codex_message_items));
    push_member(&mut ms, "timestamp_iso", opt_text_value(&timestamp_iso));
    JsonValue::Object(ms)
}

/// The event of a session row (under the session's id), the metadata it gives
/// the session (its times; a SessionDB records no directory) and the session's
/// source metadata text.
pub fn hermes_session_payload(session_id: &str, row: HermesSessionRow) -> (r: (SourceEvent, ParsedMetadata, String))
    ensures
        r.0.sort_time == row.sort_time,
        r.0.rank == 0,
        r.0.id@ == session_id@,
        opt_view(r.0.ts) == opt_view(row.started_at_iso),
        exists|p: JsonValue| hermes_session_payload_is(p, row) && r.0.payload@ == json_text(p),
        r.1@ == (MetadataView {
            cwd: None,
            started_at: opt_view(row.started_at_iso),
            ended_at: opt_view(row.ended_at_iso),
        }),
        exists|m: JsonValue| hermes_session_metadata_is(m, row) && r.2@ == vstd::utf8::decode_utf8(json_text(m)),
{
    let ghost whole = row;
    let metadata_json = hermes_metadata_value(&row);
    let text = encode_json_string(&metadata_json);
    let sort_time = row.sort_time;
    let ts = copy_opt(&row.started_at_iso);
    let metadata = ParsedMetadata {
        cwd: None,
        started_at: copy_opt(&row.started_at_iso),
        ended_at: copy_opt(&row.ended_at_iso),
    };
    let mut ms: Vec<(String, JsonValue)> = Vec::new();
    push_member(&mut ms, "type", text_value("session"));
    push_member(&mut ms, "table", text_value("sessions"));
    push_member(&mut ms, "row", hermes_session_row_value(row));
    let payload = JsonValue::Object(ms);
    let bytes = encode_json(&payload);
    proof {
        assert(hermes_session_payload_is(payload, whole));
        assert(hermes_session_metadata_is(metadata_json, whole));
    }
    let event = SourceEvent { sort_time, rank: 0, id: owned(session_id), ts, payload: bytes };
    (event, metadata, text)
}

/// The event of a message row, under its zero-padded id.
pub fn hermes_message_payload(row: HermesMessageRow) -> (e: SourceEvent)
    ensures
        e.sort_time == row.sort_time,
        e.rank == 1,
        e.id@ == padded_id(row.id as int),
        opt_view(e.ts) == opt_view(row.timestamp_iso),
        exists|p: JsonValue| hermes_message_payload_is(p, row) && e.payload@ == json_text(p),
{
    let ghost whole = row;
    let sort_time = row.sort_time;
    let id = hermes_message_event_id(row.id);
    let ts = copy_opt(&row.timestamp_iso);
    let mut ms: Vec<(String, JsonValue)> = Vec::new();
    push_member(&mut ms, "type", text_value("message"));
    push_member(&mut ms, "table", text_value("messages"));
    push_member(&mut ms, "row", hermes_message_row_value(row));
    let payload = JsonValue::Object(ms);
    let bytes = encode_json(&payload);
    proof {
        assert(hermes_message_payload_is(payload, whole));
    }
    SourceEvent { sort_time, rank: 1, id, ts, payload: bytes }
}

} // verus!

//! OpenCode stores: the JSON payload of each event and the session metadata
//! built from the rows read out of a store.
use vstd::prelude::*;

use crate::json::{
    column_is, column_value, obj_members, encode_json, encode_json_string, int_json, int_value, json_text,
    opt_int_json, opt_int_value, opt_text_is, opt_text_value, push_member, text_is, text_value,
    JsonValue,
};
use crate::session_meta::{MetadataView, ParsedMetadata};
use crate::source_events::{OpenCodeTable, SourceEvent};
use crate::text::{opt_view, owned};

verus! {

/// The columns of an OpenCode `session` row, with the ISO forms of its times.
pub struct OpenCodeSessionRow {
    pub id: String,
    pub project_id: String,
    pub parent_id: Option<String>,
    pub slug: String,
    pub directory: String,
    pub title: String,
    pub version: String,
    pub share_url: Option<String>,
    pub summary_additions: Option<i64>,
    pub summary_deletions: Option<i64>,
    pub summary_files: Option<i64>,
    pub summary_diffs: Option<String>,
    pub revert: Option<String>,
    pub permission: Option<String>,
    pub time_created: i64,
    pub time_updated: i64,
    pub time_compacting: Option<i64>,
    pub time_archived: Option<i64>,
    pub workspace_id: Option<String>,
    pub time_created_iso: Option<String>,
    pub time_updated_iso: Option<String>,
}

/// The columns of the session's `project` row (all absent when there is none).
pub struct OpenCodeProjectRow {
    pub id: Option<String>,
    pub worktree: Option<String>,
    pub vcs: Option<String>,
    pub name: Option<String>,
    pub icon_url: Option<String>,
    pub icon_color: Option<String>,
    pub time_created: Option<i64>,
    pub time_updated: Option<i64>,
    pub time_initialized: Option<i64>,
    pub sandboxes: Option<String>,
    pub commands: Option<String>,
    pub time_created_iso: Option<String>,
    pub time_updated_iso: Option<String>,
    pub time_initialized_iso: Option<String>,
}

/// The columns of a `message`, `part` or `session_message` row.
pub struct OpenCodeRow {
    pub id: String,
    pub session_id: String,
    pub message_id: Option<String>,
    pub source_type: Option<String>,
    pub time_created: i64,
    pub time_updated: i64,
    pub time_created_iso: Option<String>,
    pub time_updated_iso: Option<String>,
    pub data: String,
}

/// The `row` object of a session event.
pub open spec fn session_row_is(v: JsonValue, row: OpenCodeSessionRow) -> bool {
    let ms = obj_members(v);
    &&& v is Object
    &&& ms.len() == 21
    &&& ms[0].0@ == "id"@ && text_is(ms[0].1, row.id@)
    &&& ms[1].0@ == "project_id"@ && text_is(ms[1].1, row.project_id@)
    &&& ms[2].0@ == "parent_id"@ && opt_text_is(ms[2].1, opt_view(row.parent_id))
    &&& ms[3].0@ == "slug"@ && text_is(ms[3].1, row.slug@)
    &&& ms[4].0@ == "directory"@ && text_is(ms[4].1, row.directory@)
    &&& ms[5].0@ == "title"@ && text_is(ms[5].1, row.title@)
    &&& ms[6].0@ == "version"@ && text_is(ms[6].1, row.version@)
    &&& ms[7].0@ == "share_url"@ && opt_text_is(ms[7].1, opt_view(row.share_url))
    &&& ms[8].0@ == "summary_additions"@ && ms[8].1 == opt_int_json(row.summary_additions)
    &&& ms[9].0@ == "summary_deletions"@ && ms[9].1 == opt_int_json(row.summary_deletions)
    &&& ms[10].0@ == "summary_files"@ && ms[10].1 == opt_int_json(row.summary_files)
    &&& ms[11].0@ == "summary_diffs"@ && column_is(ms[11].1, opt_view(row.summary_diffs))
    &&& ms[12].0@ == "revert"@ && column_is(ms[12].1, opt_view(row.revert))
    &&& ms[13].0@ == "permission"@ && column_is(ms[13].1, opt_view(row.permission))
    &&& ms[14].0@ == "time_created"@ && ms[14].1 == int_json(row.time_created)
    &&& ms[15].0@ == "time_updated"@ && ms[15].1 == int_json(row.time_updated)
    &&& ms[16].0@ == "time_compacting"@ && ms[16].1 == opt_int_json(row.time_compacting)
    &&& ms[17].0@ == "time_archived"@ && ms[17].1 == opt_int_json(row.time_archived)
    &&& ms[18].0@ == "workspace_id"@ && opt_text_is(ms[18].1, opt_view(row.workspace_id))
    &&& ms[19].0@ == "time_created_iso"@ && opt_text_is(ms[19].1, opt_view(row.time_created_iso))
    &&& ms[20].0@ == "time_updated_iso"@ && opt_text_is(ms[20].1, opt_view(row.time_updated_iso))
}

/// The `project` object of a session event.
pub open spec fn project_row_is(v: JsonValue, project: OpenCodeProjectRow) -> bool {
    let ms = obj_members(v);
    &&& v is Object
    &&& ms.len() == 14
    &&& ms[0].0@ == "id"@ && opt_text_is(ms[0].1, opt_view(project.id))
    &&& ms[1].0@ == "worktree"@ && opt_text_is(ms[1].1, opt_view(project.worktree))
    &&& ms[2].0@ == "vcs"@ && opt_text_is(ms[2].1, opt_view(project.vcs))
    &&& ms[3].0@ == "name"@ && opt_text_is(ms[3].1, opt_view(project.name))
    &&& ms[4].0@ == "icon_url"@ && opt_text_is(ms[4].1, opt_view(project.icon_url))
    &&& ms[5].0@ == "icon_color"@ && opt_text_is(ms[5].1, opt_view(project.icon_color))
    &&& ms[6].0@ == "time_created"@ && ms[6].1 == opt_int_json(project.time_created)
    &&& ms[7].0@ == "time_updated"@ && ms[7].1 == opt_int_json(project.time_updated)
    &&& ms[8].0@ == "time_initialized"@ && ms[8].1 == opt_int_json(project.time_initialized)
    &&& ms[9].0@ == "sandboxes"@ && column_is(ms[9].1, opt_view(project.sandboxes))
    &&& ms[10].0@ == "commands"@ && column_is(ms[10].1, opt_view(project.commands))
    &&& ms[11].0@ == "time_created_iso"@ && opt_text_is(ms[11].1, opt_view(project.time_created_iso))
    &&& ms[12].0@ == "time_updated_iso"@ && opt_text_is(ms[12].1, opt_view(project.time_updated_iso))
    &&& ms[13].0@ == "time_initialized_iso"@ && opt_text_is(ms[13].1, opt_view(project.time_initialized_iso))
}

/// The `row` object of a table event.
pub open spec fn row_is(v: JsonValue, row: OpenCodeRow) -> bool {
    let ms = obj_members(v);
    &&& v is Object
    &&& ms.len() == 9
    &&& ms[0].0@ == "id"@ && text_is(ms[0].1, row.id@)
    &&& ms[1].0@ == "session_id"@ && text_is(ms[1].1, row.session_id@)
    &&& ms[2].0@ == "message_id"@ && opt_text_is(ms[2].1, opt_view(row.message_id))
    &&& ms[3].0@ == "source_type"@ && opt_text_is(ms[3].1, opt_view(row.source_type))
    &&& ms[4].0@ == "time_created"@ && ms[4].1 == int_json(row.time_created)
    &&& ms[5].0@ == "time_updated"@ && ms[5].1 == int_json(row.time_updated)
    &&& ms[6].0@ == "time_created_iso"@ && opt_text_is(ms[6].1, opt_view(row.time_created_iso))
    &&& ms[7].0@ == "time_updated_iso"@ && opt_text_is(ms[7].1, opt_view(row.time_updated_iso))
    &&& ms[8].0@ == "data"@ && column_is(ms[8].1, Some(row.data@))
}

/// The payload of a session event: its type and table, the session row and
/// its project row.
pub open spec fn session_payload_is(v: JsonValue, row: OpenCodeSessionRow, project: OpenCodeProjectRow) -> bool {
    let ms = obj_members(v);
    &&& v is Object && ms.len() == 4
    &&& ms[0].0@ == "type"@ && text_is(ms[0].1, "session"@)
    &&& ms[1].0@ == "table"@ && text_is(ms[1].1, "session"@)
    &&& ms[2].0@ == "row"@ && session_row_is(ms[2].1, row)
    &&& ms[3].0@ == "project"@ && project_row_is(ms[3].1, project)
}

/// The source metadata of an OpenCode session: its session and project rows.
pub open spec fn session_metadata_is(v: JsonValue, row: OpenCodeSessionRow, project: OpenCodeProjectRow) -> bool {
    let ms = obj_members(v);
    &&& v is Object && ms.len() == 2
    &&& ms[0].0@ == "session"@ && session_row_is(ms[0].1, row)
    &&& ms[1].0@ == "project"@ && project_row_is(ms[1].1, project)
}

/// The payload of a table event: the table's name as type and table, and the row.
pub open spec fn row_payload_is(v: JsonValue, table: OpenCodeTable, row: OpenCodeRow) -> bool {
    let ms = obj_members(v);
    &&& v is Object && ms.len() == 3
    &&& ms[0].0@ == "type"@ && text_is(ms[0].1, table.name_spec())
    &&& ms[1].0@ == "table"@ && text_is(ms[1].1, table.name_spec())
    &&& ms[2].0@ == "row"@ && row_is(ms[2].1, row)
}

/// The `row` object of a session event.
fn session_row_value(row: &OpenCodeSessionRow) -> (r: JsonValue)
    ensures
        session_row_is(r, *row),
{
    let mut ms: Vec<(String, JsonValue)> = Vec::new();
    push_member(&mut ms, "id", text_value(row.id.as_str()));
    push_member(&mut ms, "project_id", text_value(row.project_id.as_str()));
    push_member(&mut ms, "parent_id", opt_text_value(&row.parent_id));
    push_member(&mut ms, "slug", text_value(row.slug.as_str()));
    push_member(&mut ms, "directory", text_value(row.directory.as_str()));
    push_member(&mut ms, "title", text_value(row.title.as_str()));
    push_member(&mut ms, "version", text_value(row.version.as_str()));
    push_member(&mut ms, "share_url", opt_text_value(&row.share_url));
    push_member(&mut ms, "summary_additions", opt_int_value(row.summary_additions));
    push_member(&mut ms, "summary_deletions", opt_int_value(row.summary_deletions));
    push_member(&mut ms, "summary_files", opt_int_value(row.summary_files));
    push_member(&mut ms, "summary_diffs", column_value(&row.summary_diffs));
    push_member(&mut ms, "revert", column_value(&row.revert));
    push_member(&mut ms, "permission", column_value(&row.permission));
    push_member(&mut ms, "time_created", int_value(row.time_created));
    push_member(&mut ms, "time_updated", int_value(row.time_updated));
    push_member(&mut ms, "time_compacting", opt_int_value(row.time_compacting));
    push_member(&mut ms, "time_archived", opt_int_value(row.time_archived));
    push_member(&mut ms, "workspace_id", opt_text_value(&row.workspace_id));
    push_member(&mut ms, "time_created_iso", opt_text_value(&row.time_created_iso));
    push_member(&mut ms, "time_updated_iso", opt_text_value(&row.time_updated_iso));
    JsonValue::Object(ms)
}

/// The `project` object of a session event.
fn project_row_value(project: &OpenCodeProjectRow) -> (r: JsonValue)
    ensures
        project_row_is(r, *project),
{
    let mut ms: Vec<(String, JsonValue)> = Vec::new();
    push_member(&mut ms, "id", opt_text_value(&project.id));
    push_member(&mut ms, "worktree", opt_text_value(&project.worktree));
    push_member(&mut ms, "vcs", opt_text_value(&project.vcs));
    push_member(&mut ms, "name", opt_text_value(&project.name));
    push_member(&mut ms, "icon_url", opt_text_value(&project.icon_url));
    push_member(&mut ms, "icon_color", opt_text_value(&project.icon_color));
    push_member(&mut ms, "time_created", opt_int_value(project.time_created));
    push_member(&mut ms, "time_updated", opt_int_value(project.time_updated));
    push_member(&mut ms, "time_initialized", opt_int_value(project.time_initialized));
    push_member(&mut ms, "sandboxes", column_value(&project.sandboxes));
    push_member(&mut ms, "commands", column_value(&project.commands));
    push_member(&mut ms, "time_created_iso", opt_text_value(&project.time_created_iso));
    push_member(&mut ms, "time_updated_iso", opt_text_value(&project.time_updated_iso));
    push_member(&mut ms, "time_initialized_iso", opt_text_value(&project.time_initialized_iso));
    JsonValue::Object(ms)
}

/// The `row` object of a table event.
fn row_value(row: &OpenCodeRow) -> (r: JsonValue)
    ensures
        row_is(r, *row),
{
    let mut ms: Vec<(String, JsonValue)> = Vec::new();
    push_member(&mut ms, "id", text_value(row.id.as_str()));
    push_member(&mut ms, "session_id", text_value(row.session_id.as_str()));
    push_member(&mut ms, "message_id", opt_text_value(&row.message_id));
    push_member(&mut ms, "source_type", opt_text_value(&row.source_type));
    push_member(&mut ms, "time_created", int_value(row.time_created));
    push_member(&mut ms, "time_updated", int_value(row.time_updated));
    push_member(&mut ms, "time_created_iso", opt_text_value(&row.time_created_iso));
    push_member(&mut ms, "time_updated_iso", opt_text_value(&row.time_updated_iso));
    push_member(&mut ms, "data", column_value(&Some(owned(row.data.as_str()))));
    JsonValue::Object(ms)
}

/// The event of a session row, the metadata it gives the session (its
/// directory and times) and the session's source metadata text.
pub fn opencode_session_payload(row: &OpenCodeSessionRow, project: &OpenCodeProjectRow) -> (r: (SourceEvent, ParsedMetadata, String))
    ensures
        r.0.sort_time == row.time_created,
        r.0.rank == 0,
        r.0.id@ == row.id@,
        opt_view(r.0.ts) == opt_view(row.time_created_iso),
        exists|p: JsonValue| session_payload_is(p, *row, *project) && r.0.payload@ == json_text(p),
        r.1@ == (MetadataView {
            cwd: Some(row.directory@),
            started_at: opt_view(row.time_created_iso),
            ended_at: opt_view(row.time_updated_iso),
        }),
        exists|m: JsonValue|
            session_metadata_is(m, *row, *project) && r.2@ == vstd::utf8::decode_utf8(json_text(m)),
{
    let mut ms: Vec<(String, JsonValue)> = Vec::new();
    push_member(&mut ms, "type", text_value("session"));
    push_member(&mut ms, "table", text_value("session"));
    push_member(&mut ms, "row", session_row_value(row));
    push_member(&mut ms, "project", project_row_value(project));
    let payload = JsonValue::Object(ms);
    let mut mm: Vec<(String, JsonValue)> = Vec::new();
    push_member(&mut mm, "session", session_row_value(row));
    push_member(&mut mm, "project", project_row_value(project));
    let metadata_json = JsonValue::Object(mm);
    let bytes = encode_json(&payload);
    let text = encode_json_string(&metadata_json);
    proof {
        assert(session_payload_is(payload, *row, *project));
        assert(session_metadata_is(metadata_json, *row, *project));
    }
    let ts = match &row.time_created_iso {
        Some(t) => Some(owned(t.as_str())),
        None => None,
    };
    let event = SourceEvent { sort_time: row.time_created, rank: 0, id: owned(row.id.as_str()), ts, payload: bytes };
    let metadata = ParsedMetadata {
        cwd: Some(owned(row.directory.as_str())),
        started_at: match &row.time_created_iso {
            Some(t) => Some(owned(t.as_str())),
            None => None,
        },
        ended_at: match &row.time_updated_iso {
            Some(t) => Some(owned(t.as_str())),
            None => None,
        },
    };
    (event, metadata, text)
}

/// The event of a `message`, `part` or `session_message` row.
pub fn opencode_row_event(table: OpenCodeTable, row: &OpenCodeRow) -> (r: SourceEvent)
    ensures
        r.sort_time == row.time_created,
        r.rank == table.rank_spec(),
        r.id@ == row.id@,
        opt_view(r.ts) == opt_view(row.time_created_iso),
        exists|p: JsonValue| row_payload_is(p, table, *row) && r.payload@ == json_text(p),
{
    let mut ms: Vec<(String, JsonValue)> = Vec::new();
    push_member(&mut ms, "type", text_value(table.name()));
    push_member(&mut ms, "table", text_value(table.name()));
    push_member(&mut ms, "row", row_value(row));
    let payload = JsonValue::Object(ms);
    let bytes = encode_json(&payload);
    let ts = match &row.time_created_iso {
        Some(t) => Some(owned(t.as_str())),
        None => None,
    };
    SourceEvent { sort_time: row.time_created, rank: table.rank(), id: owned(row.id.as_str()), ts, payload: bytes }
}

} // verus!

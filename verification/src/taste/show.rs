//! Showing a stored file timeline.
use vstd::prelude::*;

use crate::error::JottraceError;
use crate::taste::timeline::{normalize_file_path, normalize_spec, FileTimelineRow};
use crate::text::owned;

verus! {

/// Options for `jottrace taste show timeline`.
#[derive(Debug, Clone, PartialEq, Eq)]
pub struct TasteShowTimelineOptions {
    pub source_session_id: String,
    pub file_path: String,
}

/// Options for `jottrace taste show example`.
#[derive(Debug, Clone, PartialEq, Eq)]
pub struct TasteShowExampleOptions {
    pub tool_use_id: String,
    pub source_session_id: Option<String>,
}

/// One stored preference example, as `taste show example` reports it.
#[derive(Debug, Clone, PartialEq, Eq)]
pub struct TasteExampleShowReport {
    pub db_path: String,
    pub example: crate::taste::compiler::PreferenceExample,
}

/// Reconstructed per-file timeline rows for one `claude_cli` session.
#[derive(Debug, Clone, PartialEq, Eq)]
pub struct TasteTimelineShowReport {
    pub db_path: String,
    pub source_session_id: String,
    pub file_path: String,
    pub rows: Vec<FileTimelineRow>,
}

/// The one example a `taste show example` lookup found: none is an error, and
/// so are matches in several sessions.
pub fn single_example(tool_use_id: &str, rows: Vec<crate::taste::compiler::PreferenceExample>) -> (r: Result<
    crate::taste::compiler::PreferenceExample,
    JottraceError,
>)
    ensures
        rows.len() == 1 ==> r == Ok::<crate::taste::compiler::PreferenceExample, JottraceError>(rows@[0]),
        rows.len() == 0 ==> r is Err && r->Err_0 is ExampleNotFound
            && r->Err_0->ExampleNotFound_tool_use_id@ == tool_use_id@,
        rows.len() > 1 ==> r is Err && r->Err_0 is AmbiguousExample
            && r->Err_0->AmbiguousExample_tool_use_id@ == tool_use_id@
            && r->Err_0->AmbiguousExample_session_count == rows.len(),
{
    let n = rows.len();
    if n == 0 {
        return Err(JottraceError::ExampleNotFound { tool_use_id: crate::text::owned(tool_use_id) });
    }
    if n > 1 {
        return Err(JottraceError::AmbiguousExample { tool_use_id: crate::text::owned(tool_use_id), session_count: n });
    }
    let mut rows = rows;
    let example = rows.remove(0);
    Ok(example)
}

/// The stored path a timeline lookup asks for: the requested path relative to
/// the session's working directory.
pub fn timeline_lookup_path(options: &TasteShowTimelineOptions, cwd: Option<&str>) -> (r: String)
    ensures
        r@ == normalize_spec(
            options.file_path@,
            match cwd {
                Some(c) => Some(c@),
                None => None,
            },
        ),
{
    normalize_file_path(options.file_path.as_str(), cwd)
}

/// The report for the rows stored under `file_path`; no rows is an error.
pub fn timeline_report(
    db_path: &str,
    options: TasteShowTimelineOptions,
    file_path: String,
    rows: Vec<FileTimelineRow>,
) -> (r: Result<TasteTimelineShowReport, JottraceError>)
    ensures
        match r {
            Ok(report) => rows.len() > 0 && report.db_path@ == db_path@
                && report.source_session_id == options.source_session_id && report.file_path
                == file_path && report.rows == rows,
            Err(e) => rows.len() == 0 && e == JottraceError::TimelineNotFound {
                source_session_id: options.source_session_id,
                file_path,
            },
        },
{
    if rows.len() == 0 {
        return Err(
            JottraceError::TimelineNotFound {
                source_session_id: options.source_session_id,
                file_path,
            },
        );
    }
    Ok(
        TasteTimelineShowReport {
            db_path: owned(db_path),
            source_session_id: options.source_session_id,
            file_path,
            rows,
        },
    )
}

} // verus!

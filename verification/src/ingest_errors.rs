//! How ingest errors are classified, when a recorded error counts as resolved,
//! and when a placeholder session row may take over a newly read session id.
//!
//! The rows themselves are read and written outside the library; these
//! functions make the decisions from the values read.
use vstd::prelude::*;

use crate::error::JottraceError;
use crate::ingest::{committed_len, SourceFormat, StoredSession};
use crate::source_events::{is_empty_source_file_placeholder, is_placeholder};
use crate::text::{str_eq};

verus! {

/// A committed line that is not valid JSON.
pub const INVALID_JSON_ERROR_KIND: &'static str = "invalid_json";

/// A session header that is missing or malformed.
pub const INVALID_SESSION_META_ERROR_KIND: &'static str = "invalid_session_meta";

/// A file that could not be read.
pub const READ_ERROR_KIND: &'static str = "read_error";

/// A path that is not a regular file.
pub const NOT_FILE_ERROR_KIND: &'static str = "not_file";

/// Any other failure recorded against a file.
pub const OTHER_ERROR_KIND: &'static str = "ingest_error";

/// The note left on an error that a later successful pass resolved.
pub const SOURCE_FILE_INGESTED_SUCCESSFULLY_NOTE: &'static str = "source file ingested successfully";

/// The note left when an empty Codex file is skipped.
pub const EMPTY_CODEX_SESSION_FILE_SKIPPED_NOTE: &'static str = "empty Codex session file skipped";

/// Errors that belong to one source file and are recorded against it, so that
/// the rest of the pass goes on.
pub open spec fn is_source_file_error_spec(e: JottraceError) -> bool {
    e is Io || e is NotFile || e is InvalidSessionMeta
}

/// The error kind recorded for a failure.
pub open spec fn error_kind_spec(e: JottraceError) -> Seq<char> {
    match e {
        JottraceError::InvalidSessionMeta { .. } => INVALID_SESSION_META_ERROR_KIND@,
        JottraceError::Io { .. } => READ_ERROR_KIND@,
        JottraceError::NotFile(_) => NOT_FILE_ERROR_KIND@,
        _ => OTHER_ERROR_KIND@,
    }
}

/// Whether an error is recorded against its source file instead of ending the pass.
pub fn is_source_file_ingest_error(e: &JottraceError) -> (r: bool)
    ensures
        r == is_source_file_error_spec(*e),
{
    match e {
        JottraceError::Io { .. } => true,
        JottraceError::NotFile(_) => true,
        JottraceError::InvalidSessionMeta { .. } => true,
        _ => false,
    }
}

/// The error kind under which a failure is recorded.
pub fn source_file_error_kind(e: &JottraceError) -> (r: &'static str)
    ensures
        r@ == error_kind_spec(*e),
{
    match e {
        JottraceError::InvalidSessionMeta { .. } => INVALID_SESSION_META_ERROR_KIND,
        JottraceError::Io { .. } => READ_ERROR_KIND,
        JottraceError::NotFile(_) => NOT_FILE_ERROR_KIND,
        _ => OTHER_ERROR_KIND,
    }
}

/// An unresolved invalid-JSON error of a file is resolved once a pass has read
/// the whole file, and only when such errors are outstanding at all.
pub fn invalid_json_resolution_due(next_read_offset: i64, pass_size: i64, any_unresolved: bool) -> (r: bool)
    ensures
        r == (next_read_offset >= pass_size && any_unresolved),
{
    next_read_offset >= pass_size && any_unresolved
}

/// How far a pass counts as read when it resolves invalid-JSON errors: the
/// committed lines of a JSONL file, the whole pass of any other format.
/// `None` when the committed length does not fit an `i64`.
pub fn invalid_json_resolution_boundary(format: SourceFormat, buffer: &[u8], pass_size: i64) -> (r: Option<i64>)
    ensures
        format != SourceFormat::Jsonl ==> r == Some(pass_size),
        format == SourceFormat::Jsonl ==> match r {
            Some(n) => crate::ingest::committed_len_spec(buffer@, n as int),
            None => forall|n: int| crate::ingest::committed_len_spec(buffer@, n) ==> n > i64::MAX,
        },
{
    if format != SourceFormat::Jsonl {
        return Some(pass_size);
    }
    let n = committed_len(buffer);
    if n as u128 > i64::MAX as u128 {
        proof {
            assert forall|m: int| crate::ingest::committed_len_spec(buffer@, m) implies m > i64::MAX by {
                crate::ingest::lemma_committed_len_unique(buffer@, m, n as int);
            }
        }
        None
    } else {
        Some(n as i64)
    }
}

/// When a file's header names another session id than the row stored for its
/// path, that row takes the new id only while it is an empty placeholder.
/// Returns the row to rename; the caller renames it unless a row with the new
/// id exists already.
pub fn placeholder_to_rename(stored_by_path: &Option<StoredSession>, source_session_id: &str) -> (r: Option<i64>)
    ensures
        match *stored_by_path {
            Some(s) => if s.source_session_id@ != source_session_id@ && is_placeholder(s) {
                r == Some(s.id)
            } else {
                r is None
            },
            None => r is None,
        },
{
    match stored_by_path {
        Some(s) => {
            if !str_eq(s.source_session_id.as_str(), source_session_id) && is_empty_source_file_placeholder(s) {
                Some(s.id)
            } else {
                None
            }
        },
        None => None,
    }
}

/// A placeholder row left for a file whose session id could not be read is
/// removed once the file's real session is known; returns the row to delete.
pub fn placeholder_to_remove(stored_by_path: &Option<StoredSession>) -> (r: Option<i64>)
    ensures
        match *stored_by_path {
            Some(s) => if is_placeholder(s) { r == Some(s.id) } else { r is None },
            None => r is None,
        },
{
    match stored_by_path {
        Some(s) => if is_empty_source_file_placeholder(s) { Some(s.id) } else { None },
        None => None,
    }
}

} // verus!

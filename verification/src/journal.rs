//! Where the journal lives and how its private state is checked: the data
//! directory, the permission modes, the lock file's contents, and the doctor's
//! choices.
//!
//! The environment, the file system and the lock calls are used outside the
//! library, which hands their answers to these functions.
use vstd::prelude::*;

use crate::error::JottraceError;
use crate::paths::{join_path, join_path_str};
use crate::storage::IngestErrorSummary;
use crate::text::{decimal, owned, push_all, push_str, string_from_chars, str_eq};

verus! {

/// The data directory's name under the home directory.
pub const APP_DIR_NAME: &'static str = ".jottrace";

pub const LOCK_FILE_NAME: &'static str = "jottrace.lock";

/// `0o700`: only the owner may list or enter the data directory.
pub const PRIVATE_DIR_MODE: u32 = 448;

/// `0o600`: only the owner may read or write journal files.
pub const PRIVATE_FILE_MODE: u32 = 384;

/// How many unresolved ingest errors the doctor lists.
pub const DOCTOR_INGEST_ERROR_LIMIT: usize = 5;

/// The data directory: `JOTTRACE_HOME` when it is set, else `.jottrace` under
/// `HOME`; without either there is no safe default.
pub fn data_dir_from(jottrace_home: Option<&str>, home: Option<&str>) -> (r: Result<String, JottraceError>)
    ensures
        match (jottrace_home, home) {
            (Some(j), _) => r is Ok && r->Ok_0@ == j@,
            (None, Some(h)) => r is Ok && r->Ok_0@ == join_path(h@, APP_DIR_NAME@),
            (None, None) => r == Err::<String, JottraceError>(JottraceError::MissingHome),
        },
{
    if let Some(j) = jottrace_home {
        return Ok(owned(j));
    }
    match home {
        Some(h) => Ok(join_path_str(h, APP_DIR_NAME)),
        None => Err(JottraceError::MissingHome),
    }
}

/// The journal database inside a data directory.
pub fn db_path_in(data_dir: &str) -> (r: String)
    ensures
        r@ == join_path(data_dir@, crate::storage::DB_FILE_NAME@),
{
    join_path_str(data_dir, crate::storage::DB_FILE_NAME)
}

/// The lock file inside a data directory.
pub fn lock_path_in(data_dir: &str) -> (r: String)
    ensures
        r@ == join_path(data_dir@, LOCK_FILE_NAME@),
{
    join_path_str(data_dir, LOCK_FILE_NAME)
}

// ---------------------------------------------------------------------------
// Permission modes
// ---------------------------------------------------------------------------
/// The permission bits of a raw mode, without the file-type bits.
pub fn permission_bits(raw_mode: u32) -> (r: u32)
    ensures
        r == raw_mode % 512,
{
    let r = raw_mode & 511u32;
    assert(raw_mode & 511u32 == raw_mode % 512) by (bit_vector);
    r
}

/// A path's permission bits must be exactly the expected ones; looser or
/// stricter modes are reported, not changed.
pub fn check_mode(path: &str, actual: u32, expected: u32) -> (r: Result<(), JottraceError>)
    ensures
        r is Ok <==> actual == expected,
        r is Err ==> r->Err_0 is InsecureMode && r->Err_0->InsecureMode_path@ == path@
            && r->Err_0->InsecureMode_expected == expected && r->Err_0->InsecureMode_actual
            == actual,
{
    if actual != expected {
        return Err(JottraceError::InsecureMode { path: owned(path), expected, actual });
    }
    Ok(())
}

/// What is found at a path that must be a directory or a regular file.
#[derive(Debug, Clone, Copy, PartialEq, Eq, Structural)]
pub enum PathKind {
    Missing,
    Directory,
    File,
    Other,
}

/// What to do about a private directory's path.
#[derive(Debug, Clone, PartialEq, Eq)]
pub enum PrivateDirStep {
    /// Create it with the private mode, then check the mode.
    Create,
    /// It exists: check its mode.
    CheckMode,
    /// Something else is in the way.
    Refuse(JottraceError),
}

/// A missing directory is created; an existing one has its mode checked;
/// anything else at the path is an error.
pub fn private_dir_step(path: &str, kind: PathKind) -> (r: PrivateDirStep)
    ensures
        kind == PathKind::Missing ==> r == PrivateDirStep::Create,
        kind == PathKind::Directory ==> r == PrivateDirStep::CheckMode,
        (kind == PathKind::File || kind == PathKind::Other) ==> r is Refuse && r->Refuse_0
            is NotDirectory && r->Refuse_0->NotDirectory_0@ == path@,
{
    match kind {
        PathKind::Missing => PrivateDirStep::Create,
        PathKind::Directory => PrivateDirStep::CheckMode,
        _ => PrivateDirStep::Refuse(JottraceError::NotDirectory(owned(path))),
    }
}

/// What to do about a private file's path.
#[derive(Debug, Clone, PartialEq, Eq)]
pub enum PrivateFileStep {
    /// Create it without overwriting anything.
    Create,
    /// It exists: check its mode.
    CheckMode,
    Refuse(JottraceError),
}

/// A missing file is created; an existing regular file has its mode checked;
/// anything else at the path is an error.
pub fn private_file_step(path: &str, kind: PathKind) -> (r: PrivateFileStep)
    ensures
        kind == PathKind::Missing ==> r == PrivateFileStep::Create,
        kind == PathKind::File ==> r == PrivateFileStep::CheckMode,
        (kind == PathKind::Directory || kind == PathKind::Other) ==> r is Refuse && r->Refuse_0
            is NotFile && r->Refuse_0->NotFile_0@ == path@,
{
    match kind {
        PathKind::Missing => PrivateFileStep::Create,
        PathKind::File => PrivateFileStep::CheckMode,
        _ => PrivateFileStep::Refuse(JottraceError::NotFile(owned(path))),
    }
}

// ---------------------------------------------------------------------------
// The lock file
// ---------------------------------------------------------------------------
pub fn decimal_u128(n: u128) -> (out: Vec<char>)
    ensures
        out@ == decimal(n as nat),
    decreases n,
{
    if n < 10 {
        let mut out = Vec::new();
        out.push(crate::text::digit(n as u64));
        out
    } else {
        let mut out = decimal_u128(n / 10);
        out.push(crate::text::digit((n % 10) as u64));
        out
    }
}

/// The token that identifies a lock holder: its process id and start time.
pub open spec fn lock_token_spec(pid: u32, started_at_ns: u128) -> Seq<char> {
    "pid="@ + decimal(pid as nat) + "\nstarted_at_ns="@ + decimal(started_at_ns as nat)
}

pub fn lock_token(pid: u32, started_at_ns: u128) -> (r: String)
    ensures
        r@ == lock_token_spec(pid, started_at_ns),
{
    let mut out: Vec<char> = Vec::new();
    push_str(&mut out, "pid=");
    let p = crate::text::decimal_chars(pid as u64);
    push_all(&mut out, p.as_slice());
    push_str(&mut out, "\nstarted_at_ns=");
    let s = decimal_u128(started_at_ns);
    push_all(&mut out, s.as_slice());
    string_from_chars(out.as_slice())
}

/// What a lock holder writes into the lock file: its token and a newline.
pub fn lock_metadata(token: &str) -> (r: String)
    ensures
        r@ == token@ + "\n"@,
{
    let mut out: Vec<char> = Vec::new();
    push_str(&mut out, token);
    push_str(&mut out, "\n");
    proof {
        assert(out@ =~= token@ + "\n"@);
    }
    string_from_chars(out.as_slice())
}

/// `s` without its trailing whitespace (`str::trim_end`).
pub open spec fn trimmed_end(s: Seq<char>) -> Seq<char>
    decreases s.len(),
{
    if s.len() > 0 && crate::text::is_ws(s.last()) {
        trimmed_end(s.drop_last())
    } else {
        s
    }
}

/// Whether the lock file still holds this holder's token, so that it may be removed.
pub fn lock_file_owned(contents: &str, token: &str) -> (r: bool)
    ensures
        r == (trimmed_end(contents@) == token@),
{
    let c = crate::text::chars_of(contents);
    let mut n = c.len();
    proof {
        assert(c@.take(n as int) =~= c@);
    }
    while n > 0 && crate::text::is_whitespace(c[n - 1])
        invariant
            n <= c.len(),
            trimmed_end(c@) == trimmed_end(c@.take(n as int)),
        decreases n,
    {
        proof {
            assert(c@.take(n as int).drop_last() =~= c@.take(n - 1));
        }
        n = n - 1;
    }
    let t = crate::text::slice_chars(c.as_slice(), 0, n);
    proof {
        assert(t@ =~= c@.take(n as int));
    }
    let tok = crate::text::chars_of(token);
    crate::text::chars_eq(t.as_slice(), tok.as_slice())
}

// ---------------------------------------------------------------------------
// The doctor
// ---------------------------------------------------------------------------
#[derive(Debug, Clone, PartialEq, Eq)]
pub struct DoctorReport {
    pub data_dir: String,
    pub unresolved_ingest_error_count: u64,
    pub recent_ingest_errors: Vec<IngestErrorSummary>,
}

#[derive(Debug, Clone, Copy, PartialEq, Eq, Structural)]
pub struct DoctorOptions {
    pub include_recent_errors: bool,
}

impl Default for DoctorOptions {
    /// The doctor lists recent errors unless told not to.
    fn default() -> (r: Self)
        ensures
            r.include_recent_errors,
    {
        DoctorOptions { include_recent_errors: true }
    }
}

/// How many recent unresolved errors the doctor reads: the limit, or none.
pub fn doctor_error_limit(options: DoctorOptions) -> (r: Option<usize>)
    ensures
        r == if options.include_recent_errors {
            Some(DOCTOR_INGEST_ERROR_LIMIT)
        } else {
            None::<usize>
        },
{
    if options.include_recent_errors {
        Some(DOCTOR_INGEST_ERROR_LIMIT)
    } else {
        None
    }
}

} // verus!

//! The library's error type and its user-facing messages.
use vstd::prelude::*;

use crate::text::{chars_of, decimal, push_all, push_signed_decimal, push_str, signed_decimal,
    string_from_chars, trim, trimmed};

verus! {

/// Everything that can go wrong in the journal. Paths are carried as text;
/// operating-system and SQLite failures are carried as their messages.
#[derive(Debug, Clone, PartialEq, Eq)]
pub enum JottraceError {
    /// Without a home directory or explicit override, there is no safe default
    /// place to put private journal state.
    MissingHome,
    Io { path: String, message: String },
    /// A path with the right name but the wrong kind (not a directory).
    NotDirectory(String),
    /// A state path that is not a regular file.
    NotFile(String),
    InvalidSessionMeta { path: String, message: String },
    /// Loose permissions are reported rather than silently changed.
    InsecureMode { path: String, expected: u32, actual: u32 },
    /// The database was written by a newer schema than this library knows.
    UnsupportedSchemaVersion { path: String, actual: i64, supported: i64 },
    UnsupportedEventPayloadCodec { codec: String },
    EventPayloadCodec { codec: String, message: String },
    SessionNotFound { source: String, source_session_id: String },
    /// No materialized timeline rows for the requested file.
    TimelineNotFound { source_session_id: String, file_path: String },
    /// `taste show example` found no stored example with that tool-use id.
    ExampleNotFound { tool_use_id: String },
    /// The tool-use id names examples in several sessions; `--session` picks one.
    AmbiguousExample { tool_use_id: String, session_count: usize },
    InvalidEventLimit { limit: i64 },
    InvalidCompactBatchSize { batch_size: usize, max: usize },
    Output { message: String },
    /// A DB-mutating command is already active in this data directory.
    LockHeld(String),
    Sqlite { path: String, message: String },
    PackOutputExists(String),
    SettleNotEmpty(String),
    ArchiveNotFound(String),
    ToolIo { program: String, message: String },
    ToolFailed { program: String, stderr: String },
    UnsafeArchiveEntry { path: String, kind: String },
    ArchiveInsideJournal(String),
    ArchiveMissingDatabase(String),
    ArchiveDatabaseInvalid { archive: String, reason: String },
    PackNoDatabase(String),
    PackOutputInsideJournal(String),
}

/// The octal numeral of `n`.
pub open spec fn octal(n: nat) -> Seq<char>
    decreases n,
{
    if n < 8 {
        seq![crate::text::digit_char(n)]
    } else {
        octal(n / 8).push(crate::text::digit_char(n % 8))
    }
}

/// `{:03o}`: the octal numeral, left-padded with zeros to three characters.
pub open spec fn octal3(n: nat) -> Seq<char> {
    let d = octal(n);
    if d.len() >= 3 {
        d
    } else {
        Seq::new((3 - d.len()) as nat, |i: int| '0') + d
    }
}

fn octal_chars(n: u32) -> (out: Vec<char>)
    ensures
        out@ == octal(n as nat),
    decreases n,
{
    if n < 8 {
        let mut out = Vec::new();
        out.push(crate::text::digit(n as u64));
        out
    } else {
        let mut out = octal_chars(n / 8);
        out.push(crate::text::digit((n % 8) as u64));
        out
    }
}

fn push_octal3(out: &mut Vec<char>, n: u32)
    ensures
        final(out)@ == old(out)@ + octal3(n as nat),
{
    let d = octal_chars(n);
    let ghost start = out@;
    if d.len() < 3 {
        let mut k: usize = 0;
        while k < 3 - d.len()
            invariant
                d.len() < 3,
                k <= 3 - d.len(),
                out@ == start + Seq::new(k as nat, |i: int| '0'),
            decreases 3 - d.len() - k,
        {
            out.push('0');
            k = k + 1;
            assert(out@ =~= start + Seq::new(k as nat, |i: int| '0'));
        }
    }
    push_all(out, d.as_slice());
    assert(out@ =~= start + octal3(n as nat));
}

/// The trimmed standard-error text of a failed tool, if any.
pub open spec fn tool_failed_message(program: Seq<char>, stderr: Seq<char>, t: Seq<char>) -> Seq<
    char,
> {
    if t.len() == 0 {
        program + " exited with a non-zero status"@
    } else {
        program + " failed: "@ + t
    }
}

/// The user-facing message of each error (the text `Display` prints).
pub open spec fn error_message(e: JottraceError, trimmed_stderr: Seq<char>) -> Seq<char> {
    match e {
        JottraceError::MissingHome => "HOME is not set and JOTTRACE_HOME was not provided"@,
        JottraceError::Io { path, message } => path@ + ": "@ + message@,
        JottraceError::NotDirectory(path) => path@ + " exists but is not a directory"@,
        JottraceError::NotFile(path) => path@ + " exists but is not a file"@,
        JottraceError::InvalidSessionMeta { path, message } => path@ + ": "@ + message@,
        JottraceError::InsecureMode { path, expected, actual } => path@ + " has mode "@ + octal3(
            actual as nat,
        ) + "; expected "@ + octal3(expected as nat),
        JottraceError::UnsupportedSchemaVersion { path, actual, supported } => path@
            + " has schema version "@ + signed_decimal(actual as int)
            + "; this binary supports up to "@ + signed_decimal(supported as int),
        JottraceError::UnsupportedEventPayloadCodec { codec } => "unsupported event payload codec: "@
            + codec@,
        JottraceError::EventPayloadCodec { codec, message } =>
            "failed to process event payload codec "@ + codec@ + ": "@ + message@,
        JottraceError::SessionNotFound { source, source_session_id } => "session not found: source="@
            + source@ + " source_session_id="@ + source_session_id@,
        JottraceError::TimelineNotFound { source_session_id, file_path } =>
            "timeline not found: session="@ + source_session_id@ + " file="@ + file_path@
            + " (run `jottrace taste extract` first)"@,
        JottraceError::ExampleNotFound { tool_use_id } => "preference example not found: tool_use_id="@
            + tool_use_id@ + " (run `jottrace taste extract` first)"@,
        JottraceError::AmbiguousExample { tool_use_id, session_count } => "tool_use_id "@
            + tool_use_id@ + " appears in "@ + decimal(session_count as nat)
            + " sessions; pass --session <source_session_id>"@,
        JottraceError::InvalidEventLimit { limit } => "event limit must be at least 1; got "@
            + signed_decimal(limit as int),
        JottraceError::InvalidCompactBatchSize { batch_size, max } =>
            "compact batch size must be between 1 and "@ + decimal(max as nat) + "; got "@
            + decimal(batch_size as nat),
        JottraceError::Output { message } => "failed to write output: "@ + message@,
        JottraceError::LockHeld(path) =>
            "another jottrace DB-mutating command is already running; lock: "@ + path@,
        JottraceError::Sqlite { path, message } => path@ + ": "@ + message@,
        JottraceError::PackOutputExists(path) => path@
            + " already exists; choose a different --output or remove the file"@,
        JottraceError::SettleNotEmpty(path) => path@
            + " already contains journal data; rerun with --force to overwrite"@,
        JottraceError::ArchiveNotFound(path) => path@ + " is not a readable archive file"@,
        JottraceError::ToolIo { program, message } => "failed to run "@ + program@ + ": "@
            + message@,
        JottraceError::ToolFailed { program, stderr } => tool_failed_message(
            program@,
            stderr@,
            trimmed_stderr,
        ),
        JottraceError::UnsafeArchiveEntry { path, kind } => "archive contains unsafe entry ("@
            + kind@ + "): "@ + path@,
        JottraceError::ArchiveInsideJournal(path) => path@
            + " is inside the target journal; move it elsewhere and retry"@,
        JottraceError::ArchiveMissingDatabase(path) => path@ + " does not contain a "@
            + "db.sqlite"@ + " entry; refusing to overwrite the live journal"@,
        JottraceError::ArchiveDatabaseInvalid { archive, reason } => archive@
            + " does not contain a usable Jottrace database: "@ + reason@,
        JottraceError::PackNoDatabase(path) => path@ + " has no "@ + "db.sqlite"@
            + "; nothing to pack \u{2014} run `jottrace ingest` first"@,
        JottraceError::PackOutputInsideJournal(path) => path@
            + " is inside the source journal; choose a --output path outside JOTTRACE_HOME"@,
    }
}

/// Whether `e` carries a tool's standard error whose trimmed text is `t`.
pub open spec fn stderr_trim_of(e: JottraceError, t: Seq<char>) -> bool {
    match e {
        JottraceError::ToolFailed { stderr, .. } => trimmed(stderr@, t),
        _ => t.len() == 0,
    }
}

/// The user-facing message of an error.
pub open spec fn error_text(e: JottraceError) -> Seq<char> {
    error_message(e, choose|t: Seq<char>| stderr_trim_of(e, t))
}

proof fn lemma_stderr_trim_unique(e: JottraceError, t: Seq<char>)
    requires
        stderr_trim_of(e, t),
    ensures
        (choose|u: Seq<char>| stderr_trim_of(e, u)) == t,
{
    let u = choose|u: Seq<char>| stderr_trim_of(e, u);
    assert(stderr_trim_of(e, u));
    match e {
        JottraceError::ToolFailed { stderr, .. } => {
            crate::text::lemma_trimmed_unique(stderr@, t, u);
        },
        _ => {
            assert(t =~= u);
        },
    }
}

impl JottraceError {
    /// The user-facing message of this error.
    pub fn to_message(&self) -> (out: String)
        ensures
            out@ == error_text(*self),
    {
        let mut m: Vec<char> = Vec::new();
        let ghost mut t: Seq<char> = Seq::empty();
        match self {
            JottraceError::MissingHome => {
                push_str(&mut m, "HOME is not set and JOTTRACE_HOME was not provided");
            },
            JottraceError::Io { path, message } => {
                push_str(&mut m, path.as_str());
                push_str(&mut m, ": ");
                push_str(&mut m, message.as_str());
            },
            JottraceError::NotDirectory(path) => {
                push_str(&mut m, path.as_str());
                push_str(&mut m, " exists but is not a directory");
            },
            JottraceError::NotFile(path) => {
                push_str(&mut m, path.as_str());
                push_str(&mut m, " exists but is not a file");
            },
            JottraceError::InvalidSessionMeta { path, message } => {
                push_str(&mut m, path.as_str());
                push_str(&mut m, ": ");
                push_str(&mut m, message.as_str());
            },
            JottraceError::InsecureMode { path, expected, actual } => {
                push_str(&mut m, path.as_str());
                push_str(&mut m, " has mode ");
                push_octal3(&mut m, *actual);
                push_str(&mut m, "; expected ");
                push_octal3(&mut m, *expected);
            },
            JottraceError::UnsupportedSchemaVersion { path, actual, supported } => {
                push_str(&mut m, path.as_str());
                push_str(&mut m, " has schema version ");
                push_signed_decimal(&mut m, *actual);
                push_str(&mut m, "; this binary supports up to ");
                push_signed_decimal(&mut m, *supported);
            },
            JottraceError::UnsupportedEventPayloadCodec { codec } => {
                push_str(&mut m, "unsupported event payload codec: ");
                push_str(&mut m, codec.as_str());
            },
            JottraceError::EventPayloadCodec { codec, message } => {
                push_str(&mut m, "failed to process event payload codec ");
                push_str(&mut m, codec.as_str());
                push_str(&mut m, ": ");
                push_str(&mut m, message.as_str());
            },
            JottraceError::SessionNotFound { source, source_session_id } => {
                push_str(&mut m, "session not found: source=");
                push_str(&mut m, source.as_str());
                push_str(&mut m, " source_session_id=");
                push_str(&mut m, source_session_id.as_str());
            },
            JottraceError::TimelineNotFound { source_session_id, file_path } => {
                push_str(&mut m, "timeline not found: session=");
                push_str(&mut m, source_session_id.as_str());
                push_str(&mut m, " file=");
                push_str(&mut m, file_path.as_str());
                push_str(&mut m, " (run `jottrace taste extract` first)");
            },
            JottraceError::ExampleNotFound { tool_use_id } => {
                push_str(&mut m, "preference example not found: tool_use_id=");
                push_str(&mut m, tool_use_id.as_str());
                push_str(&mut m, " (run `jottrace taste extract` first)");
            },
            JottraceError::AmbiguousExample { tool_use_id, session_count } => {
                push_str(&mut m, "tool_use_id ");
                push_str(&mut m, tool_use_id.as_str());
                push_str(&mut m, " appears in ");
                let d = crate::text::decimal_chars(*session_count as u64);
                push_all(&mut m, d.as_slice());
                push_str(&mut m, " sessions; pass --session <source_session_id>");
            },
            JottraceError::InvalidEventLimit { limit } => {
                push_str(&mut m, "event limit must be at least 1; got ");
                push_signed_decimal(&mut m, *limit);
            },
            JottraceError::InvalidCompactBatchSize { batch_size, max } => {
                push_str(&mut m, "compact batch size must be between 1 and ");
                let d = crate::text::decimal_chars(*max as u64);
                push_all(&mut m, d.as_slice());
                push_str(&mut m, "; got ");
                let d2 = crate::text::decimal_chars(*batch_size as u64);
                push_all(&mut m, d2.as_slice());
            },
            JottraceError::Output { message } => {
                push_str(&mut m, "failed to write output: ");
                push_str(&mut m, message.as_str());
            },
            JottraceError::LockHeld(path) => {
                push_str(&mut m, "another jottrace DB-mutating command is already running; lock: ");
                push_str(&mut m, path.as_str());
            },
            JottraceError::Sqlite { path, message } => {
                push_str(&mut m, path.as_str());
                push_str(&mut m, ": ");
                push_str(&mut m, message.as_str());
            },
            JottraceError::PackOutputExists(path) => {
                push_str(&mut m, path.as_str());
                push_str(&mut m, " already exists; choose a different --output or remove the file");
            },
            JottraceError::SettleNotEmpty(path) => {
                push_str(&mut m, path.as_str());
                push_str(&mut m, " already contains journal data; rerun with --force to overwrite");
            },
            JottraceError::ArchiveNotFound(path) => {
                push_str(&mut m, path.as_str());
                push_str(&mut m, " is not a readable archive file");
            },
            JottraceError::ToolIo { program, message } => {
                push_str(&mut m, "failed to run ");
                push_str(&mut m, program.as_str());
                push_str(&mut m, ": ");
                push_str(&mut m, message.as_str());
            },
            JottraceError::ToolFailed { program, stderr } => {
                let chars = chars_of(stderr.as_str());
                let tr = trim(chars.as_slice());
                proof {
                    t = tr@;
                }
                push_str(&mut m, program.as_str());
                if tr.len() == 0 {
                    push_str(&mut m, " exited with a non-zero status");
                } else {
                    push_str(&mut m, " failed: ");
                    push_all(&mut m, tr.as_slice());
                }
            },
            JottraceError::UnsafeArchiveEntry { path, kind } => {
                push_str(&mut m, "archive contains unsafe entry (");
                push_str(&mut m, kind.as_str());
                push_str(&mut m, "): ");
                push_str(&mut m, path.as_str());
            },
            JottraceError::ArchiveInsideJournal(path) => {
                push_str(&mut m, path.as_str());
                push_str(&mut m, " is inside the target journal; move it elsewhere and retry");
            },
            JottraceError::ArchiveMissingDatabase(path) => {
                push_str(&mut m, path.as_str());
                push_str(&mut m, " does not contain a ");
                push_str(&mut m, "db.sqlite");
                push_str(&mut m, " entry; refusing to overwrite the live journal");
            },
            JottraceError::ArchiveDatabaseInvalid { archive, reason } => {
                push_str(&mut m, archive.as_str());
                push_str(&mut m, " does not contain a usable Jottrace database: ");
                push_str(&mut m, reason.as_str());
            },
            JottraceError::PackNoDatabase(path) => {
                push_str(&mut m, path.as_str());
                push_str(&mut m, " has no ");
                push_str(&mut m, "db.sqlite");
                push_str(&mut m, "; nothing to pack \u{2014} run `jottrace ingest` first");
            },
            JottraceError::PackOutputInsideJournal(path) => {
                push_str(&mut m, path.as_str());
                push_str(
                    &mut m,
                    " is inside the source journal; choose a --output path outside JOTTRACE_HOME",
                );
            },
        }
        let out = string_from_chars(m.as_slice());
        assert(stderr_trim_of(*self, t) && out@ =~= error_message(*self, t));
        proof {
            lemma_stderr_trim_unique(*self, t);
        }
        out
    }
}

} // verus!

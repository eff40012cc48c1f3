//! The checks of `pack` and `settle` around the archive tool: where the
//! archive goes, what the tool is told, and whether a staged journal may
//! replace the live one.
//!
//! Running `tar`, resolving paths on disk and opening the staged database
//! happen outside the library; their answers come back to these functions.
use vstd::prelude::*;

use crate::error::JottraceError;
use crate::journal::PathKind;
use crate::paths::{components, join_path, join_path_str, path_components};
use crate::storage::{DB_FILE_NAME, LATEST_SCHEMA_VERSION};
use crate::text::{decimal, owned, push_all, push_signed_decimal, push_str, rows, signed_decimal, string_from_chars};
use crate::transfer::{AUTO_UPDATE_LOCK_FILE, AUTO_UPDATE_STAMP_FILE, LOCK_FILE_NAME, STAGING_DIR_NAME};

verus! {

// ---------------------------------------------------------------------------
// pack
// ---------------------------------------------------------------------------
/// `pack` needs an existing journal directory; it never creates one.
pub fn pack_data_dir_check(data_dir: &str, kind: PathKind) -> (r: Result<(), JottraceError>)
    ensures
        r is Ok <==> kind == PathKind::Directory,
        r is Err ==> r->Err_0 is NotDirectory && r->Err_0->NotDirectory_0@ == data_dir@,
{
    match kind {
        PathKind::Directory => Ok(()),
        _ => Err(JottraceError::NotDirectory(owned(data_dir))),
    }
}

/// The archive path: the one asked for, else the timestamped default name.
pub fn pack_archive_path(output: Option<&str>, now_seconds: u64) -> (r: String)
    ensures
        match output {
            Some(o) => r@ == o@,
            None => r@ == crate::transfer::archive_name_spec(now_seconds as int),
        },
{
    match output {
        Some(o) => owned(o),
        None => crate::transfer::default_archive_name(now_seconds),
    }
}

/// `Path::starts_with`: the components of `base` begin the components of `path`.
pub open spec fn starts_with_path(path: Seq<char>, base: Seq<char>) -> bool {
    let p = components(path);
    let b = components(base);
    b.len() <= p.len() && p.take(b.len() as int) == b
}

fn components_start_with(p: &Vec<Vec<char>>, b: &Vec<Vec<char>>) -> (r: bool)
    ensures
        r == (rows(b@).len() <= rows(p@).len() && rows(p@).take(rows(b@).len() as int) == rows(b@)),
{
    if b.len() > p.len() {
        return false;
    }
    let mut i: usize = 0;
    while i < b.len()
        invariant
            i <= b.len() <= p.len(),
            forall|j: int| 0 <= j < i ==> rows(p@)[j] == rows(b@)[j],
        decreases b.len() - i,
    {
        if !crate::text::chars_eq(p[i].as_slice(), b[i].as_slice()) {
            proof {
                assert(rows(p@).take(rows(b@).len() as int)[i as int] == rows(p@)[i as int]);
            }
            return false;
        }
        i = i + 1;
    }
    proof {
        assert(rows(p@).take(rows(b@).len() as int) =~= rows(b@));
    }
    true
}

/// Whether `path` lies under `base`, component by component.
pub fn path_starts_with(path: &str, base: &str) -> (r: bool)
    ensures
        r == starts_with_path(path@, base@),
{
    let pc = crate::text::chars_of(path);
    let bc = crate::text::chars_of(base);
    let p = path_components(pc.as_slice());
    let b = path_components(bc.as_slice());
    components_start_with(&p, &b)
}

/// Whether a pack output would land inside the journal it packs, given the
/// canonical journal directory (if it exists), the canonical directory the
/// output goes in (if it exists) and the output's file name (if it has one):
/// only when all three are known and the resolved output lies under the journal.
pub open spec fn output_inside_spec(
    canonical_data: Option<Seq<char>>,
    canonical_parent: Option<Seq<char>>,
    file_name: Option<Seq<char>>,
) -> bool {
    match (canonical_data, canonical_parent, file_name) {
        (Some(d), Some(p), Some(n)) => starts_with_path(join_path(p, n), d),
        _ => false,
    }
}

pub fn pack_output_inside_journal(
    canonical_data: Option<&str>,
    canonical_parent: Option<&str>,
    file_name: Option<&str>,
) -> (r: bool)
    ensures
        r == output_inside_spec(
            match canonical_data {
                Some(d) => Some(d@),
                None => None,
            },
            match canonical_parent {
                Some(p) => Some(p@),
                None => None,
            },
            match file_name {
                Some(n) => Some(n@),
                None => None,
            },
        ),
{
    match (canonical_data, canonical_parent, file_name) {
        (Some(d), Some(p), Some(n)) => {
            let resolved = join_path_str(p, n);
            path_starts_with(resolved.as_str(), d)
        },
        _ => false,
    }
}

/// Whether an archive lies inside the journal it would be settled into; a
/// journal directory that does not exist yet contains nothing.
pub fn archive_is_inside(canonical_archive: &str, canonical_data: Option<&str>) -> (r: bool)
    ensures
        r == match canonical_data {
            Some(d) => starts_with_path(canonical_archive@, d@),
            None => false,
        },
{
    match canonical_data {
        Some(d) => path_starts_with(canonical_archive, d),
        None => false,
    }
}

/// The `tar` arguments that pack a journal: gzip into `archive`, leaving out
/// the lock, the auto-update files and any staging directory, and taking the
/// directory's contents without a leading component.
pub open spec fn pack_tar_args_spec(archive: Seq<char>, data_dir: Seq<char>) -> Seq<Seq<char>> {
    seq![
        "-czf"@,
        archive,
        "--exclude="@ + LOCK_FILE_NAME@,
        "--exclude="@ + AUTO_UPDATE_STAMP_FILE@,
        "--exclude="@ + AUTO_UPDATE_LOCK_FILE@,
        "--exclude="@ + STAGING_DIR_NAME@,
        "-C"@,
        data_dir,
        "."@,
    ]
}

fn exclude_arg(name: &str) -> (r: String)
    ensures
        r@ == "--exclude="@ + name@,
{
    let mut out: Vec<char> = Vec::new();
    push_str(&mut out, "--exclude=");
    push_str(&mut out, name);
    proof {
        assert(out@ =~= "--exclude="@ + name@);
    }
    string_from_chars(out.as_slice())
}

pub fn pack_tar_args(archive: &str, data_dir: &str) -> (r: Vec<String>)
    ensures
        crate::reports::lines_view(r@) == pack_tar_args_spec(archive@, data_dir@),
{
    let mut v: Vec<String> = Vec::new();
    v.push(owned("-czf"));
    v.push(owned(archive));
    v.push(exclude_arg(LOCK_FILE_NAME));
    v.push(exclude_arg(AUTO_UPDATE_STAMP_FILE));
    v.push(exclude_arg(AUTO_UPDATE_LOCK_FILE));
    v.push(exclude_arg(STAGING_DIR_NAME));
    v.push(owned("-C"));
    v.push(owned(data_dir));
    v.push(owned("."));
    proof {
        assert(crate::reports::lines_view(v@) =~= pack_tar_args_spec(archive@, data_dir@));
    }
    v
}

/// What `pack` leaves out of an archive is exactly what `settle` refuses to
/// find at the top of one: the `--exclude` arguments of a pack name precisely
/// the reserved top-level entries.
pub proof fn lemma_pack_excludes_what_settle_refuses(archive: Seq<char>, data_dir: Seq<char>, name: Seq<char>)
    ensures
        crate::transfer::is_reserved_spec(name) <==> exists|k: int|
            2 <= k <= 5 && #[trigger] pack_tar_args_spec(archive, data_dir)[k] == "--exclude="@ + name,
{
    let args = pack_tar_args_spec(archive, data_dir);
    let pre = "--exclude="@;
    if crate::transfer::is_reserved_spec(name) {
        if name == ".pending-settle"@ {
            assert(args[5] == pre + name);
        } else if name == "jottrace.lock"@ {
            assert(args[2] == pre + name);
        } else if name == "auto-update-check"@ {
            assert(args[3] == pre + name);
        } else {
            assert(args[4] == pre + name);
        }
    } else {
        assert forall|k: int| 2 <= k <= 5 implies #[trigger] args[k] != pre + name by {
            let other: Seq<char> = if k == 2 {
                "jottrace.lock"@
            } else if k == 3 {
                "auto-update-check"@
            } else if k == 4 {
                "auto-update-check.lock"@
            } else {
                ".pending-settle"@
            };
            assert(args[k] == pre + other);
            if args[k] == pre + name {
                assert((pre + other).skip(pre.len() as int) =~= other);
                assert((pre + name).skip(pre.len() as int) =~= name);
            }
        }
    }
}

/// The `tar` arguments that unpack an archive into staging, owned by the
/// current user and with the umask's permissions.
pub open spec fn settle_tar_args_spec(archive: Seq<char>, staging: Seq<char>) -> Seq<Seq<char>> {
    seq!["-xzf"@, archive, "-C"@, staging, "--no-same-owner"@, "--no-same-permissions"@]
}

pub fn settle_tar_args(archive: &str, staging: &str) -> (r: Vec<String>)
    ensures
        crate::reports::lines_view(r@) == settle_tar_args_spec(archive@, staging@),
{
    let mut v: Vec<String> = Vec::new();
    v.push(owned("-xzf"));
    v.push(owned(archive));
    v.push(owned("-C"));
    v.push(owned(staging));
    v.push(owned("--no-same-owner"));
    v.push(owned("--no-same-permissions"));
    proof {
        assert(crate::reports::lines_view(v@) =~= settle_tar_args_spec(archive@, staging@));
    }
    v
}

/// What a finished `tar` run means: success, or its standard error as a failure.
pub fn tar_result(success: bool, stderr: &[u8]) -> (r: Result<(), JottraceError>)
    ensures
        r is Ok <==> success,
        r is Err ==> r->Err_0 is ToolFailed && r->Err_0->ToolFailed_program@ == "tar"@
            && r->Err_0->ToolFailed_stderr@ == crate::text::utf8_lossy(stderr@),
{
    if success {
        return Ok(());
    }
    Err(JottraceError::ToolFailed { program: owned("tar"), stderr: crate::text::lossy_string(stderr) })
}

// ---------------------------------------------------------------------------
// settle
// ---------------------------------------------------------------------------
/// The archive to settle must be a regular file.
pub fn settle_archive_check(archive: &str, kind: PathKind) -> (r: Result<(), JottraceError>)
    ensures
        r is Ok <==> kind == PathKind::File,
        r is Err ==> r->Err_0 is ArchiveNotFound && r->Err_0->ArchiveNotFound_0@ == archive@,
{
    match kind {
        PathKind::File => Ok(()),
        _ => Err(JottraceError::ArchiveNotFound(owned(archive))),
    }
}

/// A journal that already holds data is only overwritten with `--force`.
pub fn settle_content_check(data_dir: &str, has_journal_content: bool, force: bool) -> (r: Result<(), JottraceError>)
    ensures
        r is Ok <==> (!has_journal_content || force),
        r is Err ==> r->Err_0 is SettleNotEmpty && r->Err_0->SettleNotEmpty_0@ == data_dir@,
{
    if has_journal_content && !force {
        return Err(JottraceError::SettleNotEmpty(owned(data_dir)));
    }
    Ok(())
}

/// The staging directory inside a journal.
pub fn staging_path(data_dir: &str) -> (r: String)
    ensures
        r@ == join_path(data_dir@, STAGING_DIR_NAME@),
{
    join_path_str(data_dir, STAGING_DIR_NAME)
}

/// What an extracted entry is.
#[derive(Debug, Clone, Copy, PartialEq, Eq, Structural)]
pub enum EntryKind {
    Symlink,
    Directory,
    File,
    Other,
}

/// What to do with an extracted entry.
#[derive(Debug, Clone, PartialEq, Eq)]
pub enum EntryStep {
    /// Make it private and walk into it.
    Descend,
    /// Make it private.
    MakePrivate,
}

pub open spec fn unsafe_entry(r: Result<EntryStep, JottraceError>, path: Seq<char>, kind: Seq<char>) -> bool {
    r is Err && r->Err_0 is UnsafeArchiveEntry && r->Err_0->UnsafeArchiveEntry_path@ == path
        && r->Err_0->UnsafeArchiveEntry_kind@ == kind
}

/// Extracted entries must be directories or regular files; links and
/// special files are refused, so that no permission change can follow a link
/// out of the journal.
pub fn staged_entry_step(path: &str, kind: EntryKind) -> (r: Result<EntryStep, JottraceError>)
    ensures
        kind == EntryKind::Directory ==> r == Ok::<EntryStep, JottraceError>(EntryStep::Descend),
        kind == EntryKind::File ==> r == Ok::<EntryStep, JottraceError>(EntryStep::MakePrivate),
        kind == EntryKind::Symlink ==> unsafe_entry(r, path@, "symbolic link"@),
        kind == EntryKind::Other ==> unsafe_entry(r, path@, "non-regular file"@),
{
    match kind {
        EntryKind::Directory => Ok(EntryStep::Descend),
        EntryKind::File => Ok(EntryStep::MakePrivate),
        EntryKind::Symlink => Err(
            JottraceError::UnsafeArchiveEntry { path: owned(path), kind: owned("symbolic link") },
        ),
        EntryKind::Other => Err(
            JottraceError::UnsafeArchiveEntry { path: owned(path), kind: owned("non-regular file") },
        ),
    }
}

pub open spec fn database_invalid(r: Result<(), JottraceError>, archive: Seq<char>, reason: Seq<char>) -> bool {
    r is Err && r->Err_0 is ArchiveDatabaseInvalid && r->Err_0->ArchiveDatabaseInvalid_archive@
        == archive && r->Err_0->ArchiveDatabaseInvalid_reason@ == reason
}

fn invalid(archive: &str, reason: Vec<char>) -> (r: Result<(), JottraceError>)
    ensures
        database_invalid(r, archive@, reason@),
{
    Err(
        JottraceError::ArchiveDatabaseInvalid {
            archive: owned(archive),
            reason: string_from_chars(reason.as_slice()),
        },
    )
}

/// The staged archive must carry `db.sqlite` as a regular file.
pub fn staged_database_check(archive: &str, kind: PathKind) -> (r: Result<(), JottraceError>)
    ensures
        kind == PathKind::File ==> r is Ok,
        kind == PathKind::Missing ==> r is Err && r->Err_0 is ArchiveMissingDatabase
            && r->Err_0->ArchiveMissingDatabase_0@ == archive@,
        (kind == PathKind::Directory || kind == PathKind::Other) ==> database_invalid(
            r,
            archive@,
            DB_FILE_NAME@ + " is not a regular file"@,
        ),
{
    match kind {
        PathKind::File => Ok(()),
        PathKind::Missing => Err(JottraceError::ArchiveMissingDatabase(owned(archive))),
        _ => {
            let mut reason: Vec<char> = Vec::new();
            push_str(&mut reason, DB_FILE_NAME);
            push_str(&mut reason, " is not a regular file");
            proof {
                assert(reason@ =~= DB_FILE_NAME@ + " is not a regular file"@);
            }
            invalid(archive, reason)
        },
    }
}

/// The staged database's schema version must be a Jottrace one this library
/// knows: at least 1 and at most the latest.
pub fn staged_schema_version_check(archive: &str, user_version: i64) -> (r: Result<(), JottraceError>)
    ensures
        r is Ok <==> 1 <= user_version <= LATEST_SCHEMA_VERSION,
        user_version <= 0 ==> database_invalid(
            r,
            archive@,
            DB_FILE_NAME@ + " has no Jottrace schema (user_version="@ + signed_decimal(
                user_version as int,
            ) + ")"@,
        ),
        user_version > LATEST_SCHEMA_VERSION ==> r is Err && r->Err_0
            is UnsupportedSchemaVersion && r->Err_0->UnsupportedSchemaVersion_path@ == archive@
            && r->Err_0->UnsupportedSchemaVersion_actual == user_version
            && r->Err_0->UnsupportedSchemaVersion_supported == LATEST_SCHEMA_VERSION,
{
    if user_version <= 0 {
        let mut reason: Vec<char> = Vec::new();
        push_str(&mut reason, DB_FILE_NAME);
        push_str(&mut reason, " has no Jottrace schema (user_version=");
        push_signed_decimal(&mut reason, user_version);
        push_str(&mut reason, ")");
        proof {
            assert(reason@ =~= DB_FILE_NAME@ + " has no Jottrace schema (user_version="@
                + signed_decimal(user_version as int) + ")"@);
        }
        return invalid(archive, reason);
    }
    if user_version > LATEST_SCHEMA_VERSION {
        return Err(
            JottraceError::UnsupportedSchemaVersion {
                path: owned(archive),
                actual: user_version,
                supported: LATEST_SCHEMA_VERSION,
            },
        );
    }
    Ok(())
}

/// The index a staged table must carry: a named unique index, or its primary key.
#[derive(Debug, Clone, PartialEq, Eq)]
pub enum RequiredIndex {
    Named(String),
    PrimaryKey,
}

pub open spec fn missing_reason(required: RequiredIndex, table: Seq<char>) -> Seq<char> {
    match required {
        RequiredIndex::Named(name) => "missing unique index `"@ + name@ + "` on `"@ + table + "`"@,
        RequiredIndex::PrimaryKey => "missing PRIMARY KEY index on `"@ + table + "`"@,
    }
}

pub open spec fn not_unique_reason(required: RequiredIndex, table: Seq<char>) -> Seq<char> {
    match required {
        RequiredIndex::Named(name) => "index `"@ + name@ + "` on `"@ + table + "` is not unique"@,
        RequiredIndex::PrimaryKey => "PRIMARY KEY index on `"@ + table + "` is not unique"@,
    }
}

/// Checks the `unique` flag SQLite lists for a required index (`None` when the
/// index is not there): it must be there and be unique.
pub fn required_index_check(archive: &str, table: &str, required: &RequiredIndex, unique: Option<i64>) -> (r:
    Result<(), JottraceError>)
    ensures
        match unique {
            Some(v) => if v != 0 {
                r is Ok
            } else {
                database_invalid(r, archive@, not_unique_reason(*required, table@))
            },
            None => database_invalid(r, archive@, missing_reason(*required, table@)),
        },
{
    match unique {
        Some(v) => {
            if v != 0 {
                return Ok(());
            }
            let mut reason: Vec<char> = Vec::new();
            match required {
                RequiredIndex::Named(name) => {
                    push_str(&mut reason, "index `");
                    push_str(&mut reason, name.as_str());
                    push_str(&mut reason, "` on `");
                    push_str(&mut reason, table);
                    push_str(&mut reason, "` is not unique");
                },
                RequiredIndex::PrimaryKey => {
                    push_str(&mut reason, "PRIMARY KEY index on `");
                    push_str(&mut reason, table);
                    push_str(&mut reason, "` is not unique");
                },
            }
            proof {
                assert(reason@ =~= not_unique_reason(*required, table@));
            }
            invalid(archive, reason)
        },
        None => {
            let mut reason: Vec<char> = Vec::new();
            match required {
                RequiredIndex::Named(name) => {
                    push_str(&mut reason, "missing unique index `");
                    push_str(&mut reason, name.as_str());
                    push_str(&mut reason, "` on `");
                    push_str(&mut reason, table);
                    push_str(&mut reason, "`");
                },
                RequiredIndex::PrimaryKey => {
                    push_str(&mut reason, "missing PRIMARY KEY index on `");
                    push_str(&mut reason, table);
                    push_str(&mut reason, "`");
                },
            }
            proof {
                assert(reason@ =~= missing_reason(*required, table@));
            }
            invalid(archive, reason)
        },
    }
}

/// The reason a staged table is refused when its schema probe fails.
pub fn schema_probe_failure(archive: &str, table: &str, message: &str) -> (r: JottraceError)
    ensures
        r is ArchiveDatabaseInvalid && r->ArchiveDatabaseInvalid_archive@ == archive@
            && r->ArchiveDatabaseInvalid_reason@ == "table `"@ + table@ + "` has unexpected schema: "@
            + message@,
{
    let mut reason: Vec<char> = Vec::new();
    push_str(&mut reason, "table `");
    push_str(&mut reason, table);
    push_str(&mut reason, "` has unexpected schema: ");
    push_str(&mut reason, message);
    proof {
        assert(reason@ =~= "table `"@ + table@ + "` has unexpected schema: "@ + message@);
    }
    JottraceError::ArchiveDatabaseInvalid { archive: owned(archive), reason: string_from_chars(reason.as_slice()) }
}

/// What to do with a SQLite side file (`-shm`, `-wal`, `-journal`) in staging:
/// make a regular file private, leave a missing one, refuse anything else.
pub fn staged_side_file_step(path: &str, kind: PathKind) -> (r: Result<bool, JottraceError>)
    ensures
        kind == PathKind::File ==> r == Ok::<bool, JottraceError>(true),
        kind == PathKind::Missing ==> r == Ok::<bool, JottraceError>(false),
        (kind == PathKind::Directory || kind == PathKind::Other) ==> r is Err && r->Err_0
            is UnsafeArchiveEntry && r->Err_0->UnsafeArchiveEntry_path@ == path@
            && r->Err_0->UnsafeArchiveEntry_kind@ == "non-regular file"@,
{
    match kind {
        PathKind::File => Ok(true),
        PathKind::Missing => Ok(false),
        _ => Err(JottraceError::UnsafeArchiveEntry { path: owned(path), kind: owned("non-regular file") }),
    }
}

} // verus!

//! Moving a journal between machines: the archive name a pack gets, which
//! entries an archive may hold before it is extracted, and which entries of a
//! journal directory count as content.
use vstd::prelude::*;

use crate::civil::{civil_from_days, civil_from_epoch_spec, civil_spec};
use crate::error::JottraceError;
use crate::paths::{components, dot_dot, path_components};
use crate::text::{
    chars_eq, chars_of, is_ws, is_whitespace, lines, lines_of, push_str, push_zero_padded, rows,
    str_eq, string_from_chars, zero_padded,
};

verus! {

/// The journal database file inside a data directory.
pub const DB_FILE_NAME: &'static str = "db.sqlite";

/// The lock file held by commands that change the journal.
pub const LOCK_FILE_NAME: &'static str = "jottrace.lock";

/// Sentinels of the background update check.
pub const AUTO_UPDATE_STAMP_FILE: &'static str = "auto-update-check";

pub const AUTO_UPDATE_LOCK_FILE: &'static str = "auto-update-check.lock";

/// Subdirectory of the journal used to assemble a candidate settle.
pub const STAGING_DIR_NAME: &'static str = ".pending-settle";

#[derive(Debug, Clone, PartialEq, Eq, Default)]
pub struct PackOptions {
    /// Output archive path. `None` chooses a timestamped name in the current directory.
    pub output: Option<String>,
}

#[derive(Debug, Clone, PartialEq, Eq)]
pub struct PackReport {
    pub data_dir: String,
    pub archive: String,
    pub archive_bytes: u64,
    pub schema_version: i64,
    pub session_count: u64,
    pub event_count: u64,
}

#[derive(Debug, Clone, PartialEq, Eq, Default)]
pub struct SettleOptions {
    pub archive: String,
    /// Allow overwriting an existing non-empty journal.
    pub force: bool,
}

#[derive(Debug, Clone, PartialEq, Eq)]
pub struct SettleReport {
    pub data_dir: String,
    pub schema_version: i64,
    pub session_count: u64,
    pub event_count: u64,
}

// ---------------------------------------------------------------------------
// Reserved names
// ---------------------------------------------------------------------------
/// Runtime artefacts of a live journal, never user data.
pub open spec fn is_runtime_artefact_spec(name: Seq<char>) -> bool {
    name == "jottrace.lock"@ || name == "auto-update-check"@ || name == "auto-update-check.lock"@
}

/// Top-level names a settle archive must not carry.
pub open spec fn is_reserved_spec(name: Seq<char>) -> bool {
    name == ".pending-settle"@ || is_runtime_artefact_spec(name)
}

pub fn is_runtime_artefact(name: &str) -> (r: bool)
    ensures
        r == is_runtime_artefact_spec(name@),
{
    str_eq(name, LOCK_FILE_NAME) || str_eq(name, AUTO_UPDATE_STAMP_FILE) || str_eq(
        name,
        AUTO_UPDATE_LOCK_FILE,
    )
}

/// Whether a top-level archive entry name is reserved for the journal itself.
pub fn is_reserved_archive_top_level(name: &str) -> (r: bool)
    ensures
        r == is_reserved_spec(name@),
{
    str_eq(name, STAGING_DIR_NAME) || is_runtime_artefact(name)
}

/// Whether a journal directory with these top-level entries holds journal
/// content: any entry that is not a runtime artefact.
pub fn directory_has_journal_content(names: &[String]) -> (r: bool)
    ensures
        r == exists|k: int| 0 <= k < names.len() && !is_runtime_artefact_spec(#[trigger] names@[k]@),
{
    let mut k: usize = 0;
    while k < names.len()
        invariant
            k <= names.len(),
            forall|j: int| 0 <= j < k ==> is_runtime_artefact_spec(#[trigger] names@[j]@),
        decreases names.len() - k,
    {
        if !is_runtime_artefact(names[k].as_str()) {
            return true;
        }
        k = k + 1;
    }
    false
}

/// Whether clearing the journal before a settle keeps this top-level entry:
/// the held lock and the staged candidate journal survive.
pub fn kept_when_clearing(name: &str) -> (r: bool)
    ensures
        r == (name@ == "jottrace.lock"@ || name@ == ".pending-settle"@),
{
    str_eq(name, LOCK_FILE_NAME) || str_eq(name, STAGING_DIR_NAME)
}

// ---------------------------------------------------------------------------
// Archive listing
// ---------------------------------------------------------------------------
/// The first character of `line` after its leading whitespace.
pub open spec fn type_char_of(line: Seq<char>) -> Option<char>
    decreases line.len(),
{
    if line.len() == 0 {
        None
    } else if is_ws(line[0]) {
        type_char_of(line.drop_first())
    } else {
        Some(line[0])
    }
}

/// The entry-type characters of a verbose tar listing, one per non-blank line.
pub open spec fn type_chars(lines: Seq<Seq<char>>) -> Seq<char>
    decreases lines.len(),
{
    if lines.len() == 0 {
        Seq::empty()
    } else {
        match type_char_of(lines.last()) {
            Some(c) => type_chars(lines.drop_last()).push(c),
            None => type_chars(lines.drop_last()),
        }
    }
}

/// Why an entry of type `t` is refused, if it is.
pub open spec fn unsafe_kind(t: char) -> Option<Seq<char>> {
    if t == '-' || t == 'd' {
        None
    } else if t == 'l' {
        Some("symbolic link"@)
    } else if t == 'h' {
        Some("hard link"@)
    } else if t == 'c' || t == 'b' {
        Some("device node"@)
    } else if t == 'p' {
        Some("named pipe"@)
    } else if t == 's' {
        Some("socket"@)
    } else {
        Some("unknown archive entry"@)
    }
}

/// Why entry `path` of type `t` is refused, if it is: its type, an absolute
/// path, a `..` component, or a reserved first component, whichever the
/// components reach first.
pub open spec fn entry_problem(t: char, path: Seq<char>) -> Option<Seq<char>> {
    let cs = components(path);
    match unsafe_kind(t) {
        Some(k) => Some(k),
        None => if path.len() > 0 && path[0] == '/' {
            Some("absolute path"@)
        } else if cs.len() > 0 && cs[0] == dot_dot() {
            Some("parent traversal"@)
        } else if cs.len() > 0 && is_reserved_spec(cs[0]) {
            Some("reserved top-level entry"@)
        } else if cs.contains(dot_dot()) {
            Some("parent traversal"@)
        } else {
            None
        },
    }
}

/// The first refused entry of a listing: its path and the reason.
pub open spec fn first_problem(types: Seq<char>, paths: Seq<Seq<char>>) -> Option<(Seq<char>, Seq<char>)>
    decreases paths.len(),
{
    if paths.len() == 0 || types.len() == 0 {
        None
    } else {
        match first_problem(types.drop_last(), paths.drop_last()) {
            Some(p) => Some(p),
            None => match entry_problem(types.last(), paths.last()) {
                Some(k) => Some((paths.last(), k)),
                None => None,
            },
        }
    }
}

/// What inspecting an archive's listing concludes: `None` when every entry is
/// a plain file or directory at a safe relative path, else the refused path
/// and the reason.
pub open spec fn listing_verdict(archive: Seq<char>, types_listing: Seq<char>, paths_listing: Seq<
    char,
>) -> Option<(Seq<char>, Seq<char>)> {
    let types = type_chars(lines_of(types_listing));
    let paths = lines_of(paths_listing);
    if types.len() != paths.len() {
        Some((archive, "inconsistent tar listing"@))
    } else {
        first_problem(types, paths)
    }
}

/// `path` is a relative path that stays inside the archive and does not start
/// with a reserved name: no leading `/`, no `..` component, and a first
/// component (if any) that is not reserved.
pub open spec fn safe_relative_path(path: Seq<char>) -> bool {
    let cs = components(path);
    &&& !(path.len() > 0 && path[0] == '/')
    &&& !cs.contains(dot_dot())
    &&& (cs.len() > 0 ==> !is_reserved_spec(cs[0]))
}

/// Regular files and directories are accepted for their type: only the other
/// entry types (links, devices, pipes, sockets, unknown ones) are refused
/// because of it.
pub proof fn lemma_files_and_directories_are_plain_types(t: char)
    ensures
        (unsafe_kind(t) is None) == (t == '-' || t == 'd'),
{
}

/// An archive whose listings line up and hold only regular files and
/// directories at safe relative paths (such as one `pack` made with
/// `tar -C data_dir .`) passes the inspection.
pub proof fn lemma_plain_archive_is_accepted(archive: Seq<char>, types_listing: Seq<char>, paths_listing: Seq<char>)
    requires
        type_chars(lines_of(types_listing)).len() == lines_of(paths_listing).len(),
        forall|i: int|
            0 <= i < type_chars(lines_of(types_listing)).len() ==> #[trigger] type_chars(lines_of(types_listing))[i]
                == '-' || type_chars(lines_of(types_listing))[i] == 'd',
        forall|i: int| 0 <= i < lines_of(paths_listing).len() ==> safe_relative_path(#[trigger] lines_of(paths_listing)[i]),
    ensures
        listing_verdict(archive, types_listing, paths_listing) is None,
{
    lemma_plain_entries_have_no_problem(type_chars(lines_of(types_listing)), lines_of(paths_listing));
}

proof fn lemma_plain_entries_have_no_problem(types: Seq<char>, paths: Seq<Seq<char>>)
    requires
        types.len() == paths.len(),
        forall|i: int| 0 <= i < types.len() ==> #[trigger] types[i] == '-' || types[i] == 'd',
        forall|i: int| 0 <= i < paths.len() ==> safe_relative_path(#[trigger] paths[i]),
    ensures
        first_problem(types, paths) is None,
    decreases paths.len(),
{
    if paths.len() > 0 {
        let n = paths.len() - 1;
        assert(types[n] == '-' || types[n] == 'd');
        assert(safe_relative_path(paths[n]));
        lemma_plain_entries_have_no_problem(types.drop_last(), paths.drop_last());
    }
}

fn type_char(line: &[char]) -> (r: Option<char>)
    ensures
        r == type_char_of(line@),
{
    let mut i: usize = 0;
    proof {
        assert(line@.skip(0) =~= line@);
    }
    while i < line.len() && is_whitespace(line[i])
        invariant
            i <= line.len(),
            type_char_of(line@) == type_char_of(line@.skip(i as int)),
        decreases line.len() - i,
    {
        proof {
            assert(line@.skip(i as int).drop_first() =~= line@.skip(i + 1));
        }
        i = i + 1;
    }
    if i < line.len() {
        Some(line[i])
    } else {
        None
    }
}

fn entry_kind(t: char) -> (r: Option<&'static str>)
    ensures
        match r {
            Some(k) => unsafe_kind(t) == Some(k@),
            None => unsafe_kind(t) is None,
        },
{
    if t == '-' || t == 'd' {
        None
    } else if t == 'l' {
        Some("symbolic link")
    } else if t == 'h' {
        Some("hard link")
    } else if t == 'c' || t == 'b' {
        Some("device node")
    } else if t == 'p' {
        Some("named pipe")
    } else if t == 's' {
        Some("socket")
    } else {
        Some("unknown archive entry")
    }
}

fn entry_problem_of(t: char, path: &[char]) -> (r: Option<&'static str>)
    ensures
        match r {
            Some(k) => entry_problem(t, path@) == Some(k@),
            None => entry_problem(t, path@) is None,
        },
{
    match entry_kind(t) {
        Some(k) => {
            return Some(k);
        },
        None => {},
    }
    if path.len() > 0 && path[0] == '/' {
        return Some("absolute path");
    }
    let cs = path_components(path);
    let dd = ['.', '.'];
    proof {
        assert(dd@ =~= dot_dot());
    }
    if cs.len() > 0 && chars_eq(cs[0].as_slice(), &dd) {
        return Some("parent traversal");
    }
    if cs.len() > 0 {
        let first = string_from_chars(cs[0].as_slice());
        if is_reserved_archive_top_level(first.as_str()) {
            return Some("reserved top-level entry");
        }
    }
    let mut k: usize = 0;
    while k < cs.len()
        invariant
            k <= cs.len(),
            dd@ == dot_dot(),
            rows(cs@) == components(path@),
            unsafe_kind(t) is None,
            !(path@.len() > 0 && path@[0] == '/'),
            !(cs.len() > 0 && rows(cs@)[0] == dot_dot()),
            !(cs.len() > 0 && is_reserved_spec(rows(cs@)[0])),
            forall|j: int| 0 <= j < k ==> rows(cs@)[j] != dot_dot(),
        decreases cs.len() - k,
    {
        if chars_eq(cs[k].as_slice(), &dd) {
            proof {
                assert(rows(cs@)[k as int] == dot_dot());
                assert(components(path@).contains(dot_dot()));
            }
            return Some("parent traversal");
        }
        k = k + 1;
    }
    proof {
        assert(!components(path@).contains(dot_dot())) by {
            if components(path@).contains(dot_dot()) {
                let j = choose|j: int|
                    0 <= j < components(path@).len() && components(path@)[j] == dot_dot();
                assert(rows(cs@)[j] == dot_dot());
            }
        }
    }
    None
}

/// Checks an archive's listings before anything is extracted: `types_listing`
/// is `tar -tvzf` output, `paths_listing` is `tar -tzf` output, entry for entry.
/// Refuses links, devices, pipes, sockets and unknown entry types, absolute
/// paths, `..` components and reserved top-level names, and listings that do
/// not line up.
pub fn inspect_archive_listing(archive: &str, types_listing: &str, paths_listing: &str) -> (r: Result<
    (),
    JottraceError,
>)
    ensures
        match r {
            Ok(()) => listing_verdict(archive@, types_listing@, paths_listing@) is None,
            Err(e) => e is UnsafeArchiveEntry && listing_verdict(
                archive@,
                types_listing@,
                paths_listing@,
            ) == Some((e->UnsafeArchiveEntry_path@, e->UnsafeArchiveEntry_kind@)),
        },
{
    let type_lines = lines(types_listing);
    let mut types: Vec<char> = Vec::new();
    let mut i: usize = 0;
    while i < type_lines.len()
        invariant
            i <= type_lines.len(),
            types@ == type_chars(rows(type_lines@).take(i as int)),
        decreases type_lines.len() - i,
    {
        proof {
            assert(rows(type_lines@).take(i + 1).drop_last() =~= rows(type_lines@).take(i as int));
        }
        match type_char(type_lines[i].as_slice()) {
            Some(c) => types.push(c),
            None => {},
        }
        i = i + 1;
    }
    proof {
        assert(rows(type_lines@).take(type_lines.len() as int) =~= rows(type_lines@));
    }
    let paths = lines(paths_listing);
    if types.len() != paths.len() {
        return Err(
            JottraceError::UnsafeArchiveEntry {
                path: crate::text::owned(archive),
                kind: crate::text::owned("inconsistent tar listing"),
            },
        );
    }
    let mut k: usize = 0;
    while k < paths.len()
        invariant
            k <= paths.len() == types.len(),
            types@ == type_chars(lines_of(types_listing@)),
            rows(paths@) == lines_of(paths_listing@),
            first_problem(types@.take(k as int), rows(paths@).take(k as int)) is None,
        decreases paths.len() - k,
    {
        proof {
            assert(types@.take(k + 1).drop_last() =~= types@.take(k as int));
            assert(rows(paths@).take(k + 1).drop_last() =~= rows(paths@).take(k as int));
        }
        match entry_problem_of(types[k], paths[k].as_slice()) {
            Some(kind) => {
                proof {
                    assert(types@.take(k + 1).last() == types@[k as int]);
                    assert(rows(paths@).take(k + 1).last() == paths@[k as int]@);
                    assert(first_problem(types@.take(k + 1), rows(paths@).take(k + 1)) == Some(
                        (paths@[k as int]@, kind@),
                    ));
                    lemma_first_problem_prefix(types@, rows(paths@), k as int + 1);
                }
                return Err(
                    JottraceError::UnsafeArchiveEntry {
                        path: string_from_chars(paths[k].as_slice()),
                        kind: crate::text::owned(kind),
                    },
                );
            },
            None => {
                proof {
                    assert(types@.take(k + 1).last() == types@[k as int]);
                    assert(rows(paths@).take(k + 1).last() == paths@[k as int]@);
                }
            },
        }
        k = k + 1;
    }
    proof {
        assert(types@.take(k as int) =~= types@);
        assert(rows(paths@).take(k as int) =~= rows(paths@));
    }
    Ok(())
}

proof fn lemma_first_problem_prefix(types: Seq<char>, paths: Seq<Seq<char>>, n: int)
    requires
        0 < n <= paths.len() == types.len(),
        first_problem(types.take(n), paths.take(n)) is Some,
    ensures
        first_problem(types, paths) == first_problem(types.take(n), paths.take(n)),
    decreases paths.len() - n,
{
    if n < paths.len() {
        assert(types.take(n + 1).drop_last() =~= types.take(n));
        assert(paths.take(n + 1).drop_last() =~= paths.take(n));
        lemma_first_problem_prefix(types, paths, n + 1);
    } else {
        assert(types.take(n) =~= types);
        assert(paths.take(n) =~= paths);
    }
}

// ---------------------------------------------------------------------------
// Archive names
// ---------------------------------------------------------------------------
/// The UTC date and time of `seconds` after the Unix epoch:
/// `(year, month, day, hour, minute, second)`.
pub fn civil_from_epoch(seconds: u64) -> (r: (u64, u32, u32, u32, u32, u32))
    ensures
        (r.0 as int, r.1 as int, r.2 as int, r.3 as int, r.4 as int, r.5 as int)
            == civil_from_epoch_spec(seconds as int),
{
    let days = seconds / 86400;
    let time_of_day = seconds % 86400;
    let hour = (time_of_day / 3600) as u32;
    let minute = ((time_of_day % 3600) / 60) as u32;
    let second = (time_of_day % 60) as u32;
    let ymd = civil_from_days(days as i128);
    let (y, m, d) = ymd.unwrap();
    proof {
        lemma_civil_of_nonnegative_days(days as int);
    }
    (y as u64, m as u32, d as u32, hour, minute, second)
}

/// For a day on or after the epoch, the civil date has a non-negative year,
/// a month in 1..=12 and a small day number.
proof fn lemma_civil_of_nonnegative_days(days: int)
    requires
        0 <= days <= u64::MAX / 86400,
    ensures
        0 <= civil_spec(days).0 <= u64::MAX,
        0 <= civil_spec(days).1 <= u32::MAX,
        0 <= civil_spec(days).2 <= u32::MAX,
{
    let z = days + 719468;
    let era = z / 146097;
    let doe = z - era * 146097;
    vstd::arithmetic::div_mod::lemma_fundamental_div_mod(z, 146097);
    assert(0 <= doe < 146097);
    assert(0 <= era);
    assert(doe / 1460 <= doe) by (nonlinear_arith)
        requires
            0 <= doe,
    ;
    assert(doe / 146096 <= doe / 36524) by (nonlinear_arith)
        requires
            0 <= doe,
    ;
    let yoe = (doe - doe / 1460 + doe / 36524 - doe / 146096) / 365;
    assert(0 <= yoe <= 401) by (nonlinear_arith)
        requires
            0 <= doe < 146097,
            doe / 1460 <= doe,
            yoe == (doe - doe / 1460 + doe / 36524 - doe / 146096) / 365,
            doe / 36524 <= 4,
    ;
    let doy = doe - (365 * yoe + yoe / 4 - yoe / 100);
    assert(doe - 146700 <= doy <= doe) by (nonlinear_arith)
        requires
            0 <= yoe <= 401,
            doy == doe - (365 * yoe + yoe / 4 - yoe / 100),
    ;
    assert(era * 146097 <= z);
    assert(era <= 12_700_000_000_000);
    assert(0 <= era * 400 <= 5_100_000_000_000_000);
    lemma_doy_bounds(doy, doe);
}

proof fn lemma_doy_bounds(doy: int, doe: int)
    requires
        doe - 146700 <= doy <= doe,
        0 <= doe < 146097,
    ensures
        -150000 <= doy <= 146097,
{
}

/// `jottrace-pack-YYYYMMDD-HHMMSSZ.tar.gz` for the UTC time `seconds` after the epoch.
pub open spec fn archive_name_spec(seconds: int) -> Seq<char> {
    let (y, m, d, h, mi, s) = civil_from_epoch_spec(seconds);
    "jottrace-pack-"@ + zero_padded(y as nat, 4) + zero_padded(m as nat, 2) + zero_padded(
        d as nat,
        2,
    ) + "-"@ + zero_padded(h as nat, 2) + zero_padded(mi as nat, 2) + zero_padded(s as nat, 2)
        + "Z.tar.gz"@
}

/// The default archive name for a pack made `seconds` after the Unix epoch
/// (UTC); it sorts by time and uses only filesystem-safe characters.
pub fn default_archive_name(seconds: u64) -> (r: String)
    ensures
        r@ == archive_name_spec(seconds as int),
{
    let (year, month, day, hour, minute, second) = civil_from_epoch(seconds);
    let mut out: Vec<char> = Vec::new();
    push_str(&mut out, "jottrace-pack-");
    push_zero_padded(&mut out, year, 4);
    push_zero_padded(&mut out, month as u64, 2);
    push_zero_padded(&mut out, day as u64, 2);
    push_str(&mut out, "-");
    push_zero_padded(&mut out, hour as u64, 2);
    push_zero_padded(&mut out, minute as u64, 2);
    push_zero_padded(&mut out, second as u64, 2);
    push_str(&mut out, "Z.tar.gz");
    string_from_chars(out.as_slice())
}

} // verus!

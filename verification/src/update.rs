//! Self-update: where a release is downloaded from, what a binary's
//! `--version` output means, and when a background update check is due.
use vstd::prelude::*;

use crate::text::{
    chars_of, has_prefix, is_prefix, lines, lines_of, owned, parse_u64, parse_u64_spec, push_str,
    rows, slice_chars, str_eq, string_from_chars, trim, trimmed,
};

verus! {

/// The GitHub repository releases come from.
pub const REPO: &'static str = "season179/jottrace";

/// The hidden subcommand a background update runs as.
pub const AUTO_UPDATE_COMMAND: &'static str = "__jottrace-auto-update";

/// Seconds between two background update checks.
pub const AUTO_UPDATE_INTERVAL_SECS: u64 = 86400;

/// Seconds after which an update lock left behind is considered abandoned.
pub const AUTO_UPDATE_LOCK_STALE_SECS: u64 = 3600;

#[derive(Debug, Clone, PartialEq, Eq)]
pub struct UpdateReport {
    pub current_version: String,
    pub target_version: String,
    pub install_path: String,
    pub result: UpdateResult,
}

#[derive(Debug, Clone, Copy, PartialEq, Eq, Structural)]
pub enum UpdateResult {
    Updated,
    UpToDate,
}

impl UpdateResult {
    pub fn as_str(self) -> (r: &'static str)
        ensures
            r@ == match self {
                UpdateResult::Updated => "updated"@,
                UpdateResult::UpToDate => "up-to-date"@,
            },
    {
        match self {
            UpdateResult::Updated => "updated",
            UpdateResult::UpToDate => "up-to-date",
        }
    }
}

/// What can go wrong while updating. Operating-system failures carry their messages.
#[derive(Debug, Clone, PartialEq, Eq)]
pub enum UpdateError {
    UnsupportedPlatform { os: String, arch: String },
    MissingInstallParent(String),
    Io { path: String, message: String },
    CommandIo { program: String, message: String },
    CommandFailed { program: String, stderr: String },
    InvalidArtifact(String),
    InvalidVersionOutput { path: String, stdout: String },
}

/// The user-facing message of an update error.
pub open spec fn update_error_message(e: UpdateError) -> Seq<char> {
    match e {
        UpdateError::UnsupportedPlatform { os, arch } => "unsupported platform "@ + os@ + "/"@
            + arch@,
        UpdateError::MissingInstallParent(path) => "install path has no parent directory: "@
            + path@,
        UpdateError::Io { path, message } => path@ + ": "@ + message@,
        UpdateError::CommandIo { program, message } => "failed to run "@ + program@ + ": "@
            + message@,
        UpdateError::CommandFailed { program, stderr } => {
            let t = choose|t: Seq<char>| trimmed(stderr@, t);
            if t.len() == 0 {
                program@ + " failed"@
            } else {
                program@ + " failed: "@ + t
            }
        },
        UpdateError::InvalidArtifact(message) => "invalid release artifact: "@ + message@,
        UpdateError::InvalidVersionOutput { path, stdout } => path@ + " printed an invalid version: "@
            + choose|t: Seq<char>| trimmed(stdout@, t),
    }
}

proof fn lemma_trimmed_unique(s: Seq<char>, t: Seq<char>)
    requires
        trimmed(s, t),
    ensures
        (choose|u: Seq<char>| trimmed(s, u)) == t,
{
    let u = choose|u: Seq<char>| trimmed(s, u);
    crate::text::lemma_trimmed_unique(s, t, u);
}

impl UpdateError {
    /// The user-facing message (see `update_error_message`).
    pub fn message(&self) -> (r: String)
        ensures
            r@ == update_error_message(*self),
    {
        let mut out: Vec<char> = Vec::new();
        match self {
            UpdateError::UnsupportedPlatform { os, arch } => {
                push_str(&mut out, "unsupported platform ");
                push_str(&mut out, os.as_str());
                push_str(&mut out, "/");
                push_str(&mut out, arch.as_str());
            },
            UpdateError::MissingInstallParent(path) => {
                push_str(&mut out, "install path has no parent directory: ");
                push_str(&mut out, path.as_str());
            },
            UpdateError::Io { path, message } => {
                push_str(&mut out, path.as_str());
                push_str(&mut out, ": ");
                push_str(&mut out, message.as_str());
            },
            UpdateError::CommandIo { program, message } => {
                push_str(&mut out, "failed to run ");
                push_str(&mut out, program.as_str());
                push_str(&mut out, ": ");
                push_str(&mut out, message.as_str());
            },
            UpdateError::CommandFailed { program, stderr } => {
                let sc = chars_of(stderr.as_str());
                let t = trim(sc.as_slice());
                proof {
                    lemma_trimmed_unique(stderr@, t@);
                }
                push_str(&mut out, program.as_str());
                if t.len() == 0 {
                    push_str(&mut out, " failed");
                } else {
                    push_str(&mut out, " failed: ");
                    crate::text::push_all(&mut out, t.as_slice());
                }
            },
            UpdateError::InvalidArtifact(message) => {
                push_str(&mut out, "invalid release artifact: ");
                push_str(&mut out, message.as_str());
            },
            UpdateError::InvalidVersionOutput { path, stdout } => {
                let sc = chars_of(stdout.as_str());
                let t = trim(sc.as_slice());
                proof {
                    lemma_trimmed_unique(stdout@, t@);
                }
                push_str(&mut out, path.as_str());
                push_str(&mut out, " printed an invalid version: ");
                crate::text::push_all(&mut out, t.as_slice());
            },
        }
        string_from_chars(out.as_slice())
    }
}

/// Whether `command` is the hidden background-update subcommand.
pub fn is_auto_update_command(command: &str) -> (r: bool)
    ensures
        r == (command@ == "__jottrace-auto-update"@),
{
    str_eq(command, AUTO_UPDATE_COMMAND)
}

/// The release artifact name for an operating system and architecture.
pub open spec fn release_target_spec(os: Seq<char>, arch: Seq<char>) -> Option<Seq<char>> {
    if os == "linux"@ && arch == "x86_64"@ {
        Some("linux-x86_64"@)
    } else if os == "linux"@ && arch == "aarch64"@ {
        Some("linux-arm64"@)
    } else if os == "macos"@ && arch == "aarch64"@ {
        Some("darwin-arm64"@)
    } else if os == "macos"@ && arch == "x86_64"@ {
        Some("darwin-x86_64"@)
    } else {
        None
    }
}

/// `t` ends with `suffix`.
pub open spec fn ends_with(t: Seq<char>, suffix: Seq<char>) -> bool {
    t.len() >= suffix.len() && t.subrange(t.len() - suffix.len(), t.len() as int) == suffix
}

/// A supported platform gets the artifact of its own architecture and system:
/// `aarch64` machines an `-arm64` artifact, `x86_64` machines an `-x86_64`
/// one, Linux a `linux-` one and macOS a `darwin-` one; so two different
/// supported platforms never share an artifact.
pub proof fn lemma_release_target_fits_platform(os: Seq<char>, arch: Seq<char>, os2: Seq<char>, arch2: Seq<char>)
    ensures
        release_target_spec(os, arch) matches Some(t) ==> {
            &&& arch == "aarch64"@ ==> ends_with(t, "-arm64"@)
            &&& arch == "x86_64"@ ==> ends_with(t, "-x86_64"@)
            &&& os == "linux"@ ==> t.take(6) == "linux-"@
            &&& os == "macos"@ ==> t.take(7) == "darwin-"@
        },
        (release_target_spec(os, arch) is Some) == ((os == "linux"@ || os == "macos"@) && (arch == "aarch64"@
            || arch == "x86_64"@)),
        release_target_spec(os, arch) is Some && release_target_spec(os2, arch2) is Some && (os != os2 || arch
            != arch2) ==> release_target_spec(os, arch) != release_target_spec(os2, arch2),
{
    reveal_strlit("linux");
    reveal_strlit("macos");
    reveal_strlit("aarch64");
    reveal_strlit("x86_64");
    reveal_strlit("linux-x86_64");
    reveal_strlit("linux-arm64");
    reveal_strlit("darwin-arm64");
    reveal_strlit("darwin-x86_64");
    reveal_strlit("-arm64");
    reveal_strlit("-x86_64");
    reveal_strlit("linux-");
    reveal_strlit("darwin-");
    assert("linux"@[0] != "macos"@[0]);
    assert("aarch64"@.len() != "x86_64"@.len());
    if os == "linux"@ && arch == "x86_64"@ {
        let t = "linux-x86_64"@;
        assert(t.subrange(t.len() - 7, t.len() as int) =~= "-x86_64"@);
        assert(t.take(6) =~= "linux-"@);
    } else if os == "linux"@ && arch == "aarch64"@ {
        let t = "linux-arm64"@;
        assert(t.subrange(t.len() - 6, t.len() as int) =~= "-arm64"@);
        assert(t.take(6) =~= "linux-"@);
    } else if os == "macos"@ && arch == "aarch64"@ {
        let t = "darwin-arm64"@;
        assert(t.subrange(t.len() - 6, t.len() as int) =~= "-arm64"@);
        assert(t.take(7) =~= "darwin-"@);
    } else if os == "macos"@ && arch == "x86_64"@ {
        let t = "darwin-x86_64"@;
        assert(t.subrange(t.len() - 7, t.len() as int) =~= "-x86_64"@);
        assert(t.take(7) =~= "darwin-"@);
    }
    if release_target_spec(os, arch) is Some && release_target_spec(os2, arch2) is Some && (os != os2 || arch
        != arch2) {
        let t = release_target_spec(os, arch)->0;
        let t2 = release_target_spec(os2, arch2)->0;
        if t == t2 {
            assert(t.len() == t2.len());
            assert(t[0] == t2[0]);
            assert(t[t.len() - 1] == t2[t2.len() - 1]);
            assert(t[t.len() - 2] == t2[t2.len() - 2]);
        }
    }
}

/// The release target of a platform; other platforms are unsupported.
pub fn release_target(os: &str, arch: &str) -> (r: Result<&'static str, UpdateError>)
    ensures
        match r {
            Ok(t) => release_target_spec(os@, arch@) == Some(t@),
            Err(e) => release_target_spec(os@, arch@) is None && (e matches UpdateError::UnsupportedPlatform {
                os: o,
                arch: a,
            } && o@ == os@ && a@ == arch@),
        },
{
    if str_eq(os, "linux") && str_eq(arch, "x86_64") {
        Ok("linux-x86_64")
    } else if str_eq(os, "linux") && str_eq(arch, "aarch64") {
        Ok("linux-arm64")
    } else if str_eq(os, "macos") && str_eq(arch, "aarch64") {
        Ok("darwin-arm64")
    } else if str_eq(os, "macos") && str_eq(arch, "x86_64") {
        Ok("darwin-x86_64")
    } else {
        Err(UpdateError::UnsupportedPlatform { os: owned(os), arch: owned(arch) })
    }
}

/// `s` without its trailing slashes.
pub open spec fn trim_end_slashes(s: Seq<char>) -> Seq<char>
    decreases s.len(),
{
    if s.len() > 0 && s.last() == '/' {
        trim_end_slashes(s.drop_last())
    } else {
        s
    }
}

/// Where the release archive for `target` at `version` is downloaded from: a
/// non-empty `base_url` override, else GitHub's latest or tagged release.
pub open spec fn release_url_spec(target: Seq<char>, version: Seq<char>, base_url: Option<Seq<char>>) -> Seq<
    char,
> {
    let artifact = "jottrace-"@ + target + ".tar.gz"@;
    match base_url {
        Some(b) if b.len() > 0 => trim_end_slashes(b) + "/"@ + version + "/"@ + artifact,
        _ => if version == "latest"@ {
            "https://github.com/season179/jottrace/releases/latest/download/"@ + artifact
        } else {
            "https://github.com/season179/jottrace/releases/download/"@ + version + "/"@ + artifact
        },
    }
}

/// The download URL of a release archive (see `release_url_spec`).
pub fn release_url_for_base(target: &str, version: &str, base_url: Option<&str>) -> (r: String)
    ensures
        r@ == release_url_spec(
            target@,
            version@,
            match base_url {
                Some(b) => Some(b@),
                None => None,
            },
        ),
{
    let mut artifact: Vec<char> = Vec::new();
    push_str(&mut artifact, "jottrace-");
    push_str(&mut artifact, target);
    push_str(&mut artifact, ".tar.gz");
    let mut out: Vec<char> = Vec::new();
    let base: Option<&str> = match base_url {
        Some(b) => if b.is_empty() {
            None
        } else {
            Some(b)
        },
        None => None,
    };
    match base {
        Some(b) => {
            let bc = chars_of(b);
            let mut n = bc.len();
            proof {
                assert(bc@.take(n as int) =~= bc@);
            }
            while n > 0 && bc[n - 1] == '/'
                invariant
                    n <= bc.len(),
                    trim_end_slashes(bc@) == trim_end_slashes(bc@.take(n as int)),
                decreases n,
            {
                proof {
                    assert(bc@.take(n as int).drop_last() =~= bc@.take(n - 1));
                }
                n = n - 1;
            }
            let trimmed_base = slice_chars(bc.as_slice(), 0, n);
            proof {
                assert(trimmed_base@ =~= bc@.take(n as int));
            }
            crate::text::push_all(&mut out, trimmed_base.as_slice());
            push_str(&mut out, "/");
            push_str(&mut out, version);
            push_str(&mut out, "/");
            crate::text::push_all(&mut out, artifact.as_slice());
        },
        _ => {
            if str_eq(version, "latest") {
                push_str(&mut out, "https://github.com/season179/jottrace/releases/latest/download/");
                crate::text::push_all(&mut out, artifact.as_slice());
            } else {
                push_str(&mut out, "https://github.com/season179/jottrace/releases/download/");
                push_str(&mut out, version);
                push_str(&mut out, "/");
                crate::text::push_all(&mut out, artifact.as_slice());
            }
        },
    }
    proof {
        if base_url is Some && base_url->0@.len() > 0 {
            assert(out@ =~= trim_end_slashes(base_url->0@) + "/"@ + version@ + "/"@ + ("jottrace-"@
                + target@ + ".tar.gz"@));
        } else if version@ == "latest"@ {
            assert(out@ =~= "https://github.com/season179/jottrace/releases/latest/download/"@ + (
            "jottrace-"@ + target@ + ".tar.gz"@));
        } else {
            assert(out@ =~= "https://github.com/season179/jottrace/releases/download/"@ + version@
                + "/"@ + ("jottrace-"@ + target@ + ".tar.gz"@));
        }
    }
    string_from_chars(out.as_slice())
}

/// The version a binary reports: its trimmed `--version` output after `jottrace `.
pub open spec fn version_of_output(stdout: Seq<char>) -> Option<Seq<char>> {
    let t = choose|t: Seq<char>| trimmed(stdout, t);
    if is_prefix("jottrace "@, t) {
        Some(t.skip(9))
    } else {
        None
    }
}

/// Reads the version out of a binary's `--version` output; anything else is an
/// invalid version output of the binary at `path`.
pub fn parse_version_output(path: &str, stdout: &str) -> (r: Result<String, UpdateError>)
    ensures
        match r {
            Ok(v) => version_of_output(stdout@) == Some(v@),
            Err(e) => version_of_output(stdout@) is None && (e matches UpdateError::InvalidVersionOutput {
                path: p,
                stdout: s,
            } && p@ == path@ && s@ == stdout@),
        },
{
    let sc = chars_of(stdout);
    let t = trim(sc.as_slice());
    proof {
        lemma_trimmed_unique(stdout@, t@);
    }
    let prefix = chars_of("jottrace ");
    proof {
        reveal_strlit("jottrace ");
    }
    if has_prefix(t.as_slice(), prefix.as_slice()) {
        let v = slice_chars(t.as_slice(), 9, t.len());
        proof {
            assert(v@ =~= t@.skip(9));
        }
        Ok(string_from_chars(v.as_slice()))
    } else {
        Err(UpdateError::InvalidVersionOutput { path: owned(path), stdout: owned(stdout) })
    }
}

/// The `created_at=` value of the first line of a lock file that has one, as a number.
pub open spec fn created_at_spec(lines: Seq<Seq<char>>) -> Option<u64>
    decreases lines.len(),
{
    if lines.len() == 0 {
        None
    } else if is_prefix("created_at="@, lines[0]) {
        parse_u64_spec(lines[0].skip(11))
    } else {
        created_at_spec(lines.drop_first())
    }
}

/// When an update lock was created, from the lock file's contents.
pub fn lock_created_at(contents: &str) -> (r: Option<u64>)
    ensures
        r == created_at_spec(lines_of(contents@)),
{
    let ls = lines(contents);
    let key = chars_of("created_at=");
    proof {
        reveal_strlit("created_at=");
    }
    let mut i: usize = 0;
    proof {
        assert(rows(ls@).skip(0) =~= rows(ls@));
    }
    while i < ls.len()
        invariant
            i <= ls.len(),
            key@ == "created_at="@,
            key@.len() == 11,
            rows(ls@) == lines_of(contents@),
            created_at_spec(rows(ls@)) == created_at_spec(rows(ls@).skip(i as int)),
        decreases ls.len() - i,
    {
        proof {
            assert(rows(ls@).skip(i as int)[0] == ls@[i as int]@);
            assert(rows(ls@).skip(i as int).drop_first() =~= rows(ls@).skip(i + 1));
        }
        if has_prefix(ls[i].as_slice(), key.as_slice()) {
            let value = slice_chars(ls[i].as_slice(), 11, ls[i].len());
            proof {
                assert(value@ =~= ls@[i as int]@.skip(11));
            }
            return parse_u64(value.as_slice());
        }
        i = i + 1;
    }
    None
}

/// Whether a background update check is due, from the stamp file's contents
/// (`None`: no stamp yet) and the current time: a stamp that is not a number
/// counts as due.
pub open spec fn auto_update_due_spec(stamp: Option<Seq<char>>, now: u64) -> bool {
    match stamp {
        None => true,
        Some(contents) => match parse_u64_spec(choose|t: Seq<char>| trimmed(contents, t)) {
            Some(last) => (if now >= last {
                now - last
            } else {
                0
            }) >= 86400,
            None => true,
        },
    }
}

pub fn auto_update_due(stamp: Option<&str>, now: u64) -> (r: bool)
    ensures
        r == auto_update_due_spec(
            match stamp {
                Some(s) => Some(s@),
                None => None,
            },
            now,
        ),
{
    match stamp {
        None => true,
        Some(contents) => {
            let cs = chars_of(contents);
            let t = trim(cs.as_slice());
            proof {
                lemma_trimmed_unique(contents@, t@);
            }
            match parse_u64(t.as_slice()) {
                Some(last) => now.saturating_sub(last) >= AUTO_UPDATE_INTERVAL_SECS,
                None => true,
            }
        },
    }
}

/// Whether an update lock created at `created_at` is abandoned at time `now`.
pub fn lock_is_stale(created_at: u64, now: u64) -> (r: bool)
    ensures
        r == ((if now >= created_at {
            now - created_at
        } else {
            0
        }) >= 3600),
{
    now.saturating_sub(created_at) >= AUTO_UPDATE_LOCK_STALE_SECS
}

/// What reading the optional `config.json` of a journal gave.
#[derive(Debug, Clone, PartialEq, Eq)]
pub enum ConfigRead {
    /// No config file.
    Missing,
    /// The file exists but could not be read.
    Unreadable,
    /// The file's text.
    Text(String),
}

/// What the decoded config says of `auto_update`: `None` when the text is not
/// a config document, `Some(None)` when the key is absent.
pub fn config_allows_auto_update(read: &ConfigRead, decoded: Option<Option<bool>>) -> (r: bool)
    ensures
        r == match read {
            ConfigRead::Missing => true,
            ConfigRead::Unreadable => false,
            ConfigRead::Text(t) => (exists|u: Seq<char>| trimmed(t@, u) && u.len() == 0) || match decoded {
                Some(Some(b)) => b,
                Some(None) => true,
                None => false,
            },
        },
{
    match read {
        ConfigRead::Missing => true,
        ConfigRead::Unreadable => false,
        ConfigRead::Text(t) => {
            let tc = chars_of(t.as_str());
            let tt = trim(tc.as_slice());
            proof {
                if exists|u: Seq<char>| trimmed(t@, u) && u.len() == 0 {
                    let u = choose|u: Seq<char>| trimmed(t@, u) && u.len() == 0;
                    crate::text::lemma_trimmed_unique(t@, tt@, u);
                }
            }
            if tt.len() == 0 {
                return true;
            }
            match decoded {
                Some(Some(b)) => b,
                Some(None) => true,
                None => false,
            }
        },
    }
}

} // verus!

//! The decisions around a self-update: the order of the background check's
//! gates, what each external command's outcome means, and what an update run
//! reports.
//!
//! Spawning processes, downloading and replacing the binary happen outside
//! the library; each step's outcome comes back here.
use vstd::prelude::*;

use crate::text::{owned, push_str, string_from_chars, str_eq};
use crate::update::{update_error_message, UpdateError, UpdateResult};

verus! {

// ---------------------------------------------------------------------------
// The background check
// ---------------------------------------------------------------------------
/// The gates a background update passes, in order.
#[derive(Debug, Clone, Copy, PartialEq, Eq, Structural)]
pub enum AutoUpdateGate {
    /// `JOTTRACE_AUTO_UPDATE` is not `0`.
    EnvAllows,
    /// The running binary is the one the installer manages.
    InstallerManaged,
    /// The data directory resolves and is private.
    DataDirPrivate,
    /// The last check is a day old or more.
    StampDue,
    /// No other process holds the check lock.
    LockAcquired,
    /// Still due once the lock is held.
    StampStillDue,
    /// The user configuration does not turn updates off.
    ConfigAllows,
    /// This check's time was recorded.
    StampWritten,
    /// The background updater was started.
    Spawned,
}

/// What to do after a gate.
#[derive(Debug, Clone, Copy, PartialEq, Eq, Structural)]
pub enum AutoUpdateAction {
    /// Try this gate next.
    Run(AutoUpdateGate),
    /// Quietly do nothing.
    Stop,
    /// Recording or starting failed: report the error (and drop the lock).
    Fail,
    /// The updater is running in the background.
    Started,
}

/// A gate's position in the chain.
pub open spec fn gate_index(g: AutoUpdateGate) -> int {
    match g {
        AutoUpdateGate::EnvAllows => 0,
        AutoUpdateGate::InstallerManaged => 1,
        AutoUpdateGate::DataDirPrivate => 2,
        AutoUpdateGate::StampDue => 3,
        AutoUpdateGate::LockAcquired => 4,
        AutoUpdateGate::StampStillDue => 5,
        AutoUpdateGate::ConfigAllows => 6,
        AutoUpdateGate::StampWritten => 7,
        AutoUpdateGate::Spawned => 8,
    }
}

/// Which gate stands at index `i` of the sequence.
pub open spec fn gate_at(i: int) -> AutoUpdateGate {
    if i <= 0 {
        AutoUpdateGate::EnvAllows
    } else if i == 1 {
        AutoUpdateGate::InstallerManaged
    } else if i == 2 {
        AutoUpdateGate::DataDirPrivate
    } else if i == 3 {
        AutoUpdateGate::StampDue
    } else if i == 4 {
        AutoUpdateGate::LockAcquired
    } else if i == 5 {
        AutoUpdateGate::StampStillDue
    } else if i == 6 {
        AutoUpdateGate::ConfigAllows
    } else if i == 7 {
        AutoUpdateGate::StampWritten
    } else {
        AutoUpdateGate::Spawned
    }
}

/// The first gate.
pub fn auto_update_start() -> (a: AutoUpdateAction)
    ensures
        a == AutoUpdateAction::Run(AutoUpdateGate::EnvAllows),
{
    AutoUpdateAction::Run(AutoUpdateGate::EnvAllows)
}

/// After `gate` passed or failed: a passed gate leads to the next one (and the
/// last to a started updater); a failed check stops quietly, while a failure
/// to record the check or to start the updater is an error.
pub open spec fn next_spec(gate: AutoUpdateGate, passed: bool) -> AutoUpdateAction {
    if !passed {
        if gate == AutoUpdateGate::StampWritten || gate == AutoUpdateGate::Spawned {
            AutoUpdateAction::Fail
        } else {
            AutoUpdateAction::Stop
        }
    } else if gate == AutoUpdateGate::Spawned {
        AutoUpdateAction::Started
    } else {
        AutoUpdateAction::Run(gate_at(gate_index(gate) + 1))
    }
}

pub fn auto_update_next(gate: AutoUpdateGate, passed: bool) -> (a: AutoUpdateAction)
    ensures
        a == next_spec(gate, passed),
{
    if !passed {
        return match gate {
            AutoUpdateGate::StampWritten | AutoUpdateGate::Spawned => AutoUpdateAction::Fail,
            _ => AutoUpdateAction::Stop,
        };
    }
    match gate {
        AutoUpdateGate::EnvAllows => AutoUpdateAction::Run(AutoUpdateGate::InstallerManaged),
        AutoUpdateGate::InstallerManaged => AutoUpdateAction::Run(AutoUpdateGate::DataDirPrivate),
        AutoUpdateGate::DataDirPrivate => AutoUpdateAction::Run(AutoUpdateGate::StampDue),
        AutoUpdateGate::StampDue => AutoUpdateAction::Run(AutoUpdateGate::LockAcquired),
        AutoUpdateGate::LockAcquired => AutoUpdateAction::Run(AutoUpdateGate::StampStillDue),
        AutoUpdateGate::StampStillDue => AutoUpdateAction::Run(AutoUpdateGate::ConfigAllows),
        AutoUpdateGate::ConfigAllows => AutoUpdateAction::Run(AutoUpdateGate::StampWritten),
        AutoUpdateGate::StampWritten => AutoUpdateAction::Run(AutoUpdateGate::Spawned),
        AutoUpdateGate::Spawned => AutoUpdateAction::Started,
    }
}

/// A run of the machine: `outcomes[k]` is whether the k-th gate tried passed;
/// the run is the actions from the start on.
pub open spec fn run_actions(outcomes: Seq<bool>) -> AutoUpdateAction
    decreases outcomes.len(),
{
    if outcomes.len() == 0 {
        AutoUpdateAction::Run(AutoUpdateGate::EnvAllows)
    } else {
        match run_actions(outcomes.drop_last()) {
            AutoUpdateAction::Run(g) => next_spec(g, outcomes.last()),
            other => other,
        }
    }
}

proof fn lemma_run_prefix(outcomes: Seq<bool>)
    ensures
        run_actions(outcomes) is Run ==> outcomes.len() <= 8 && run_actions(outcomes)
            == AutoUpdateAction::Run(gate_at(outcomes.len() as int)) && forall|k: int|
            0 <= k < outcomes.len() ==> #[trigger] outcomes[k],
    decreases outcomes.len(),
{
    if outcomes.len() > 0 {
        lemma_run_prefix(outcomes.drop_last());
        if run_actions(outcomes) is Run {
            assert(run_actions(outcomes.drop_last()) is Run);
            assert forall|k: int| 0 <= k < outcomes.len() implies #[trigger] outcomes[k] by {
                if k < outcomes.len() - 1 {
                    assert(outcomes.drop_last()[k] == outcomes[k]);
                }
            }
        }
    }
}

/// The background updater is started only after every gate passed, in
/// order: a run that reaches `Started` tried the nine gates and all of them passed.
pub proof fn lemma_started_only_after_every_gate(outcomes: Seq<bool>)
    requires
        run_actions(outcomes) == AutoUpdateAction::Started,
    ensures
        outcomes.len() >= 9,
        forall|k: int| 0 <= k < 9 ==> #[trigger] outcomes[k],
    decreases outcomes.len(),
{
    assert(outcomes.len() > 0);
    let prev = outcomes.drop_last();
    if run_actions(prev) == AutoUpdateAction::Started {
        lemma_started_only_after_every_gate(prev);
        assert forall|k: int| 0 <= k < 9 implies #[trigger] outcomes[k] by {
            assert(prev[k] == outcomes[k]);
        }
    } else {
        lemma_run_prefix(prev);
        assert(run_actions(prev) is Run);
        assert(gate_at(prev.len() as int) == AutoUpdateGate::Spawned);
        assert(prev.len() == 8);
        assert forall|k: int| 0 <= k < 9 implies #[trigger] outcomes[k] by {
            if k < 8 {
                assert(prev[k] == outcomes[k]);
            }
        }
    }
}

/// `JOTTRACE_AUTO_UPDATE=0` turns background updates off; an empty value is unset.
pub fn auto_update_disabled(value: Option<&str>) -> (r: bool)
    ensures
        r == match value {
            Some(v) => v@ == "0"@,
            None => false,
        },
{
    match value {
        Some(v) => str_eq(v, "0"),
        None => false,
    }
}

// ---------------------------------------------------------------------------
// An update run
// ---------------------------------------------------------------------------
/// The release to install: `JOTTRACE_VERSION` when set and not empty, else `latest`.
pub fn requested_version(value: Option<&str>) -> (r: String)
    ensures
        r@ == match value {
            Some(v) => if v@.len() > 0 {
                v@
            } else {
                "latest"@
            },
            None => "latest"@,
        },
{
    match value {
        Some(v) => if crate::text::chars_of(v).len() > 0 {
            owned(v)
        } else {
            owned("latest")
        },
        None => owned("latest"),
    }
}

/// The binary to replace: the override when given, else the running
/// executable (whose lookup may have failed, with this message).
pub fn install_path_from(override_path: Option<&str>, current_exe: Result<&str, &str>) -> (r: Result<String, UpdateError>)
    ensures
        match (override_path, current_exe) {
            (Some(p), _) => r is Ok && r->Ok_0@ == p@,
            (None, Ok(e)) => r is Ok && r->Ok_0@ == e@,
            (None, Err(m)) => r is Err && r->Err_0 == (UpdateError::Io {
                path: r->Err_0->Io_path,
                message: r->Err_0->Io_message,
            }) && r->Err_0->Io_path@ == "current executable"@ && r->Err_0->Io_message@ == m@,
        },
{
    if let Some(p) = override_path {
        return Ok(owned(p));
    }
    match current_exe {
        Ok(e) => Ok(owned(e)),
        Err(m) => Err(UpdateError::Io { path: owned("current executable"), message: owned(m) }),
    }
}

/// What a finished external command means: success, or its standard error.
pub fn checked_command_result(program: &str, success: bool, stderr: &[u8]) -> (r: Result<(), UpdateError>)
    ensures
        r is Ok <==> success,
        r is Err ==> r->Err_0 is CommandFailed && r->Err_0->CommandFailed_program@ == program@
            && r->Err_0->CommandFailed_stderr@ == crate::text::utf8_lossy(stderr@),
{
    if success {
        return Ok(());
    }
    Err(UpdateError::CommandFailed { program: owned(program), stderr: crate::text::lossy_string(stderr) })
}

/// A failed `tar` extraction means the artifact held no runnable binary;
/// other failures are passed on.
pub fn extract_failure(error: UpdateError) -> (r: UpdateError)
    ensures
        (error is CommandFailed && error->CommandFailed_program@ == "tar"@) ==> r is InvalidArtifact
            && r->InvalidArtifact_0@ == "artifact did not contain a runnable jottrace binary ("@
            + update_error_message(error) + ")"@,
        !(error is CommandFailed && error->CommandFailed_program@ == "tar"@) ==> r == error,
{
    let is_tar = match &error {
        UpdateError::CommandFailed { program, .. } => str_eq(program.as_str(), "tar"),
        _ => false,
    };
    if is_tar {
        let text = error.message();
        let mut out: Vec<char> = Vec::new();
        push_str(&mut out, "artifact did not contain a runnable jottrace binary (");
        push_str(&mut out, text.as_str());
        push_str(&mut out, ")");
        proof {
            assert(out@ =~= "artifact did not contain a runnable jottrace binary ("@
                + update_error_message(error) + ")"@);
        }
        UpdateError::InvalidArtifact(string_from_chars(out.as_slice()))
    } else {
        error
    }
}

/// The version a binary reports: its `--version` run must succeed and print
/// `jottrace <version>`.
pub fn binary_version_result(path: &str, success: bool, stdout: &[u8]) -> (r: Result<String, UpdateError>)
    ensures
        !success ==> r is Err && r->Err_0 is InvalidArtifact && r->Err_0->InvalidArtifact_0@ == path@
            + " did not run successfully with --version"@,
        success ==> match crate::update::version_of_output(crate::text::utf8_lossy(stdout@)) {
            Some(v) => r is Ok && r->Ok_0@ == v,
            None => r is Err && r->Err_0 is InvalidVersionOutput && r->Err_0->InvalidVersionOutput_path@
                == path@ && r->Err_0->InvalidVersionOutput_stdout@ == crate::text::utf8_lossy(stdout@),
        },
{
    if !success {
        let mut out: Vec<char> = Vec::new();
        push_str(&mut out, path);
        push_str(&mut out, " did not run successfully with --version");
        proof {
            assert(out@ =~= path@ + " did not run successfully with --version"@);
        }
        return Err(UpdateError::InvalidArtifact(string_from_chars(out.as_slice())));
    }
    let text = crate::text::lossy_string(stdout);
    crate::update::parse_version_output(path, text.as_str())
}

/// An update replaces the binary only when the release's version differs.
pub fn update_outcome(current_version: &str, target_version: &str) -> (r: UpdateResult)
    ensures
        r == if current_version@ == target_version@ {
            UpdateResult::UpToDate
        } else {
            UpdateResult::Updated
        },
{
    if str_eq(current_version, target_version) {
        UpdateResult::UpToDate
    } else {
        UpdateResult::Updated
    }
}

/// The install path must lie in a directory, where the new binary is staged.
pub fn install_parent_check(install_path: &str, parent: Option<&str>) -> (r: Result<String, UpdateError>)
    ensures
        match parent {
            Some(p) => if p@.len() > 0 {
                r is Ok && r->Ok_0@ == p@
            } else {
                r == Err::<String, UpdateError>(UpdateError::MissingInstallParent(r->Err_0->MissingInstallParent_0))
                    && r->Err_0->MissingInstallParent_0@ == install_path@
            },
            None => r == Err::<String, UpdateError>(UpdateError::MissingInstallParent(r->Err_0->MissingInstallParent_0))
                && r->Err_0->MissingInstallParent_0@ == install_path@,
        },
{
    match parent {
        Some(p) => if crate::text::chars_of(p).len() > 0 {
            Ok(owned(p))
        } else {
            Err(UpdateError::MissingInstallParent(owned(install_path)))
        },
        None => Err(UpdateError::MissingInstallParent(owned(install_path))),
    }
}

/// The arguments of the download: fail on HTTP errors, quietly, following
/// redirects, into `archive`.
pub fn download_args(url: &str, archive: &str) -> (r: Vec<String>)
    ensures
        crate::reports::lines_view(r@) == seq!["-fsSL"@, url@, "-o"@, archive@],
{
    let mut v: Vec<String> = Vec::new();
    v.push(owned("-fsSL"));
    v.push(owned(url));
    v.push(owned("-o"));
    v.push(owned(archive));
    proof {
        assert(crate::reports::lines_view(v@) =~= seq!["-fsSL"@, url@, "-o"@, archive@]);
    }
    v
}

/// The arguments that take only the `jottrace` binary out of a release archive.
pub fn extract_args(archive: &str, destination: &str) -> (r: Vec<String>)
    ensures
        crate::reports::lines_view(r@) == seq!["-xzf"@, archive@, "-C"@, destination@, "jottrace"@],
{
    let mut v: Vec<String> = Vec::new();
    v.push(owned("-xzf"));
    v.push(owned(archive));
    v.push(owned("-C"));
    v.push(owned(destination));
    v.push(owned("jottrace"));
    proof {
        assert(crate::reports::lines_view(v@) =~= seq!["-xzf"@, archive@, "-C"@, destination@, "jottrace"@]);
    }
    v
}

/// `{prefix}-{pid}-{suffix}`: a name no other run of this process picks.
pub open spec fn unique_name_spec(prefix: Seq<char>, pid: u32, suffix: u128) -> Seq<char> {
    prefix + "-"@ + crate::text::decimal(pid as nat) + "-"@ + crate::text::decimal(suffix as nat)
}

pub fn unique_name(prefix: &str, pid: u32, suffix: u128) -> (r: String)
    ensures
        r@ == unique_name_spec(prefix@, pid, suffix),
{
    let mut out: Vec<char> = Vec::new();
    push_str(&mut out, prefix);
    push_str(&mut out, "-");
    let p = crate::text::decimal_chars(pid as u64);
    crate::text::push_all(&mut out, p.as_slice());
    push_str(&mut out, "-");
    let s = crate::journal::decimal_u128(suffix);
    crate::text::push_all(&mut out, s.as_slice());
    string_from_chars(out.as_slice())
}

} // verus!

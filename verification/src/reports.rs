//! The text of each command's report, line by line; printing the lines is
//! left to the caller.
use vstd::prelude::*;

use crate::compact::{CompactMode, CompactReport};
use crate::ingest::IngestReport;
use crate::journal::DoctorReport;
use crate::storage::{IngestErrorSummary, StatusReport};
use crate::taste::compiler::PreferenceExample;
use crate::taste::export::TasteExportReport;
use crate::taste::extract::TasteExtractReport;
use crate::taste::show::TasteTimelineShowReport;
use crate::text::{decimal, owned, push_all, push_str, signed_decimal, string_from_chars};
use crate::transfer::{PackReport, SettleReport};
use crate::update::UpdateReport;

verus! {

/// The text of each line.
pub open spec fn lines_view(v: Seq<String>) -> Seq<Seq<char>> {
    v.map_values(|s: String| s@)
}

fn push_line(out: &mut Vec<String>, line: String)
    ensures
        lines_view(final(out)@) == lines_view(old(out)@).push(line@),
{
    let ghost before = out@;
    out.push(line);
    proof {
        assert(lines_view(out@) =~= lines_view(before).push(out@.last()@));
    }
}

fn text_line(label: &str, value: &str) -> (r: String)
    ensures
        r@ == label@ + value@,
{
    let mut out: Vec<char> = Vec::new();
    push_str(&mut out, label);
    push_str(&mut out, value);
    proof {
        assert(out@ =~= label@ + value@);
    }
    string_from_chars(out.as_slice())
}

fn count_line(label: &str, value: u64) -> (r: String)
    ensures
        r@ == label@ + decimal(value as nat),
{
    let mut out: Vec<char> = Vec::new();
    push_str(&mut out, label);
    let d = crate::text::decimal_chars(value);
    push_all(&mut out, d.as_slice());
    string_from_chars(out.as_slice())
}

fn signed_line(label: &str, value: i64) -> (r: String)
    ensures
        r@ == label@ + signed_decimal(value as int),
{
    let mut out: Vec<char> = Vec::new();
    push_str(&mut out, label);
    crate::text::push_signed_decimal(&mut out, value);
    string_from_chars(out.as_slice())
}

/// `seq![line]` when `cond` holds, else nothing.
pub open spec fn when(cond: bool, line: Seq<char>) -> Seq<Seq<char>> {
    if cond {
        seq![line]
    } else {
        Seq::empty()
    }
}

// ---------------------------------------------------------------------------
// ingest, status, doctor
// ---------------------------------------------------------------------------
pub open spec fn ingest_lines(r: IngestReport, details: bool) -> Seq<Seq<char>> {
    seq!["jottrace ingest"@] + when(details, "db: "@ + r.db_path@) + seq![
        "files: "@ + decimal(r.file_count as nat),
        "sessions: "@ + decimal(r.session_count as nat),
        "events: "@ + decimal(r.event_count as nat),
        "inserted_events: "@ + decimal(r.inserted_event_count as nat),
        "skipped_files: "@ + decimal(r.skipped_file_count as nat),
        "unresolved_ingest_errors: "@ + decimal(r.unresolved_ingest_error_count as nat),
    ]
}

/// The ingest lines report the counts each under its own label, in decimal,
/// after the title (and, in detail, the journal path).
pub proof fn lemma_ingest_lines_show_each_count(r: IngestReport, details: bool)
    ensures
        ({
            let ls = ingest_lines(r, details);
            let k: int = if details {
                2
            } else {
                1
            };
            &&& ls.len() == k + 6
            &&& ls[0] == "jottrace ingest"@
            &&& details ==> ls[1] == "db: "@ + r.db_path@
            &&& ls[k] == "files: "@ + decimal(r.file_count as nat)
            &&& ls[k + 1] == "sessions: "@ + decimal(r.session_count as nat)
            &&& ls[k + 2] == "events: "@ + decimal(r.event_count as nat)
            &&& ls[k + 3] == "inserted_events: "@ + decimal(r.inserted_event_count as nat)
            &&& ls[k + 4] == "skipped_files: "@ + decimal(r.skipped_file_count as nat)
            &&& ls[k + 5] == "unresolved_ingest_errors: "@ + decimal(r.unresolved_ingest_error_count as nat)
        }),
{
}

pub fn ingest_report_lines(report: &IngestReport, details: bool) -> (out: Vec<String>)
    ensures
        lines_view(out@) == ingest_lines(*report, details),
{
    let mut out: Vec<String> = Vec::new();
    push_line(&mut out, owned("jottrace ingest"));
    if details {
        push_line(&mut out, text_line("db: ", report.db_path.as_str()));
    }
    push_line(&mut out, count_line("files: ", report.file_count));
    push_line(&mut out, count_line("sessions: ", report.session_count));
    push_line(&mut out, count_line("events: ", report.event_count));
    push_line(&mut out, count_line("inserted_events: ", report.inserted_event_count));
    push_line(&mut out, count_line("skipped_files: ", report.skipped_file_count));
    push_line(&mut out, count_line("unresolved_ingest_errors: ", report.unresolved_ingest_error_count));
    proof {
        assert(lines_view(out@) =~= ingest_lines(*report, details));
    }
    out
}

pub open spec fn status_lines(r: StatusReport, details: bool) -> Seq<Seq<char>> {
    seq!["jottrace status"@] + (if details {
        seq!["db: "@ + r.db_path@, "schema_version: "@ + signed_decimal(r.schema_version as int)]
    } else {
        Seq::empty()
    }) + seq![
        "sessions: "@ + decimal(r.session_count as nat),
        "events: "@ + decimal(r.event_count as nat),
        "unresolved_ingest_errors: "@ + decimal(r.unresolved_ingest_error_count as nat),
    ]
}

/// The status lines report the counts each under its own label: after the
/// title (and, in detail, the path and schema lines) come the stored session
/// count, the stored event count and the unresolved error count, in decimal.
pub proof fn lemma_status_lines_show_each_count(r: StatusReport, details: bool)
    ensures
        ({
            let ls = status_lines(r, details);
            let k: int = if details {
                3
            } else {
                1
            };
            &&& ls.len() == k + 3
            &&& ls[0] == "jottrace status"@
            &&& details ==> ls[1] == "db: "@ + r.db_path@ && ls[2] == "schema_version: "@ + signed_decimal(
                r.schema_version as int,
            )
            &&& ls[k] == "sessions: "@ + decimal(r.session_count as nat)
            &&& ls[k + 1] == "events: "@ + decimal(r.event_count as nat)
            &&& ls[k + 2] == "unresolved_ingest_errors: "@ + decimal(r.unresolved_ingest_error_count as nat)
        }),
{
}

pub fn status_report_lines(report: &StatusReport, details: bool) -> (out: Vec<String>)
    ensures
        lines_view(out@) == status_lines(*report, details),
{
    let mut out: Vec<String> = Vec::new();
    push_line(&mut out, owned("jottrace status"));
    if details {
        push_line(&mut out, text_line("db: ", report.db_path.as_str()));
        push_line(&mut out, signed_line("schema_version: ", report.schema_version));
    }
    push_line(&mut out, count_line("sessions: ", report.session_count));
    push_line(&mut out, count_line("events: ", report.event_count));
    push_line(&mut out, count_line("unresolved_ingest_errors: ", report.unresolved_ingest_error_count));
    proof {
        assert(lines_view(out@) =~= status_lines(*report, details));
    }
    out
}

/// The optional lines of an ingest error: a line for each field it has.
pub open spec fn optional_line(label: Seq<char>, value: Option<Seq<char>>) -> Seq<Seq<char>> {
    match value {
        Some(v) => seq![label + v],
        None => Seq::empty(),
    }
}

pub open spec fn optional_signed(value: Option<i64>) -> Option<Seq<char>> {
    match value {
        Some(n) => Some(signed_decimal(n as int)),
        None => None,
    }
}

pub open spec fn ingest_error_lines(e: IngestErrorSummary) -> Seq<Seq<char>> {
    seq!["recent_ingest_error:"@, "  source: "@ + e.source@] + optional_line(
        "  source_session_id: "@,
        crate::text::opt_view(e.source_session_id),
    ) + seq!["  file: "@ + e.file_path@] + optional_line("  line: "@, optional_signed(e.line_number))
        + optional_line("  byte_offset: "@, optional_signed(e.byte_offset)) + optional_line(
        "  generation: "@,
        optional_signed(e.generation),
    ) + seq![
        "  kind: "@ + e.error_kind@,
        "  first_seen_at: "@ + e.first_seen_at@,
        "  last_seen_at: "@ + e.last_seen_at@,
        "  occurrences: "@ + decimal(e.occurrence_count as nat),
        "  message: "@ + e.message@,
    ]
}

fn push_optional_signed(out: &mut Vec<String>, label: &str, value: Option<i64>)
    ensures
        lines_view(final(out)@) == lines_view(old(out)@) + optional_line(label@, optional_signed(value)),
{
    match value {
        Some(n) => {
            push_line(out, signed_line(label, n));
        },
        None => {
            proof {
                assert(lines_view(out@) =~= lines_view(out@) + Seq::<Seq<char>>::empty());
            }
        },
    }
}

/// The lines describing one unresolved ingest error.
pub fn recent_ingest_error_lines(e: &IngestErrorSummary) -> (out: Vec<String>)
    ensures
        lines_view(out@) == ingest_error_lines(*e),
{
    let mut out: Vec<String> = Vec::new();
    push_line(&mut out, owned("recent_ingest_error:"));
    push_line(&mut out, text_line("  source: ", e.source.as_str()));
    match &e.source_session_id {
        Some(id) => push_line(&mut out, text_line("  source_session_id: ", id.as_str())),
        None => {},
    }
    let ghost a = lines_view(out@);
    push_line(&mut out, text_line("  file: ", e.file_path.as_str()));
    push_optional_signed(&mut out, "  line: ", e.line_number);
    push_optional_signed(&mut out, "  byte_offset: ", e.byte_offset);
    push_optional_signed(&mut out, "  generation: ", e.generation);
    push_line(&mut out, text_line("  kind: ", e.error_kind.as_str()));
    push_line(&mut out, text_line("  first_seen_at: ", e.first_seen_at.as_str()));
    push_line(&mut out, text_line("  last_seen_at: ", e.last_seen_at.as_str()));
    push_line(&mut out, count_line("  occurrences: ", e.occurrence_count));
    push_line(&mut out, text_line("  message: ", e.message.as_str()));
    proof {
        assert(a =~= seq!["recent_ingest_error:"@, "  source: "@ + e.source@] + optional_line(
            "  source_session_id: "@,
            crate::text::opt_view(e.source_session_id),
        ));
        assert(lines_view(out@) =~= ingest_error_lines(*e));
    }
    out
}

pub open spec fn error_list_lines(errors: Seq<IngestErrorSummary>) -> Seq<Seq<char>>
    decreases errors.len(),
{
    if errors.len() == 0 {
        Seq::empty()
    } else {
        error_list_lines(errors.drop_last()) + ingest_error_lines(errors.last())
    }
}

pub open spec fn doctor_lines(r: DoctorReport, details: bool) -> Seq<Seq<char>> {
    seq!["jottrace doctor"@] + when(details, "data_dir: "@ + r.data_dir@ + " (ok)"@) + seq![
        "permissions: private (ok)"@,
        "unresolved_ingest_errors: "@ + decimal(r.unresolved_ingest_error_count as nat),
    ] + when(
        !details && r.unresolved_ingest_error_count > 0,
        "next: run `jottrace doctor --details` to inspect recent ingest errors"@,
    ) + when(
        details && r.recent_ingest_errors.len() > 0,
        "recent_ingest_errors: "@ + decimal(r.recent_ingest_errors.len() as nat),
    ) + if details {
        error_list_lines(r.recent_ingest_errors@)
    } else {
        Seq::empty()
    }
}

pub fn doctor_report_lines(report: &DoctorReport, details: bool) -> (out: Vec<String>)
    ensures
        lines_view(out@) == doctor_lines(*report, details),
{
    let mut out: Vec<String> = Vec::new();
    push_line(&mut out, owned("jottrace doctor"));
    if details {
        let mut t: Vec<char> = Vec::new();
        push_str(&mut t, "data_dir: ");
        push_str(&mut t, report.data_dir.as_str());
        push_str(&mut t, " (ok)");
        proof {
            assert(t@ =~= "data_dir: "@ + report.data_dir@ + " (ok)"@);
        }
        push_line(&mut out, string_from_chars(t.as_slice()));
    }
    push_line(&mut out, owned("permissions: private (ok)"));
    push_line(&mut out, count_line("unresolved_ingest_errors: ", report.unresolved_ingest_error_count));
    if !details && report.unresolved_ingest_error_count > 0 {
        push_line(
            &mut out,
            owned("next: run `jottrace doctor --details` to inspect recent ingest errors"),
        );
    }
    if details && report.recent_ingest_errors.len() > 0 {
        push_line(
            &mut out,
            count_line("recent_ingest_errors: ", report.recent_ingest_errors.len() as u64),
        );
    }
    let ghost head = lines_view(out@);
    if details {
        let mut i: usize = 0;
        while i < report.recent_ingest_errors.len()
            invariant
                i <= report.recent_ingest_errors.len(),
                lines_view(out@) == head + error_list_lines(report.recent_ingest_errors@.take(i as int)),
            decreases report.recent_ingest_errors.len() - i,
        {
            proof {
                assert(report.recent_ingest_errors@.take(i + 1).drop_last()
                    =~= report.recent_ingest_errors@.take(i as int));
            }
            let lines = recent_ingest_error_lines(&report.recent_ingest_errors[i]);
            let ghost before = lines_view(out@);
            let mut k: usize = 0;
            while k < lines.len()
                invariant
                    k <= lines.len(),
                    lines_view(out@) == before + lines_view(lines@).take(k as int),
                decreases lines.len() - k,
            {
                push_line(&mut out, lines[k].clone());
                proof {
                    assert(lines_view(lines@).take(k + 1) =~= lines_view(lines@).take(k as int).push(
                        lines@[k as int]@,
                    ));
                }
                k = k + 1;
            }
            proof {
                assert(lines_view(lines@).take(lines.len() as int) =~= lines_view(lines@));
            }
            i = i + 1;
        }
        proof {
            assert(report.recent_ingest_errors@.take(report.recent_ingest_errors.len() as int)
                =~= report.recent_ingest_errors@);
        }
    }
    proof {
        assert(lines_view(out@) =~= doctor_lines(*report, details));
    }
    out
}

// ---------------------------------------------------------------------------
// pack, settle, update
// ---------------------------------------------------------------------------
pub open spec fn pack_lines(r: PackReport) -> Seq<Seq<char>> {
    seq![
        "jottrace pack"@,
        "archive: "@ + r.archive@,
        "bytes: "@ + decimal(r.archive_bytes as nat),
        "schema_version: "@ + signed_decimal(r.schema_version as int),
        "sessions: "@ + decimal(r.session_count as nat),
        "events: "@ + decimal(r.event_count as nat),
        "next: copy to the destination, then run `jottrace settle <archive>`"@,
    ]
}

pub fn pack_report_lines(report: &PackReport) -> (out: Vec<String>)
    ensures
        lines_view(out@) == pack_lines(*report),
{
    let mut out: Vec<String> = Vec::new();
    push_line(&mut out, owned("jottrace pack"));
    push_line(&mut out, text_line("archive: ", report.archive.as_str()));
    push_line(&mut out, count_line("bytes: ", report.archive_bytes));
    push_line(&mut out, signed_line("schema_version: ", report.schema_version));
    push_line(&mut out, count_line("sessions: ", report.session_count));
    push_line(&mut out, count_line("events: ", report.event_count));
    push_line(&mut out, owned("next: copy to the destination, then run `jottrace settle <archive>`"));
    proof {
        assert(lines_view(out@) =~= pack_lines(*report));
    }
    out
}

pub open spec fn settle_lines(r: SettleReport) -> Seq<Seq<char>> {
    seq![
        "jottrace settle"@,
        "data_dir: "@ + r.data_dir@,
        "schema_version: "@ + signed_decimal(r.schema_version as int),
        "sessions: "@ + decimal(r.session_count as nat),
        "events: "@ + decimal(r.event_count as nat),
    ]
}

pub fn settle_report_lines(report: &SettleReport) -> (out: Vec<String>)
    ensures
        lines_view(out@) == settle_lines(*report),
{
    let mut out: Vec<String> = Vec::new();
    push_line(&mut out, owned("jottrace settle"));
    push_line(&mut out, text_line("data_dir: ", report.data_dir.as_str()));
    push_line(&mut out, signed_line("schema_version: ", report.schema_version));
    push_line(&mut out, count_line("sessions: ", report.session_count));
    push_line(&mut out, count_line("events: ", report.event_count));
    proof {
        assert(lines_view(out@) =~= settle_lines(*report));
    }
    out
}

pub open spec fn update_lines(r: UpdateReport) -> Seq<Seq<char>> {
    seq![
        "jottrace update"@,
        "current_version: "@ + r.current_version@,
        "target_version: "@ + r.target_version@,
        "install_path: "@ + r.install_path@,
        "result: "@ + match r.result {
            crate::update::UpdateResult::Updated => "updated"@,
            crate::update::UpdateResult::UpToDate => "up-to-date"@,
        },
    ]
}

pub fn update_report_lines(report: &UpdateReport) -> (out: Vec<String>)
    ensures
        lines_view(out@) == update_lines(*report),
{
    let mut out: Vec<String> = Vec::new();
    push_line(&mut out, owned("jottrace update"));
    push_line(&mut out, text_line("current_version: ", report.current_version.as_str()));
    push_line(&mut out, text_line("target_version: ", report.target_version.as_str()));
    push_line(&mut out, text_line("install_path: ", report.install_path.as_str()));
    push_line(&mut out, text_line("result: ", report.result.as_str()));
    proof {
        assert(lines_view(out@) =~= update_lines(*report));
    }
    out
}

// ---------------------------------------------------------------------------
// compact
// ---------------------------------------------------------------------------
pub open spec fn mode_name(mode: CompactMode) -> Seq<char> {
    match mode {
        CompactMode::DryRun => "dry-run"@,
        CompactMode::Apply => "apply"@,
        CompactMode::Vacuum => "vacuum"@,
    }
}

pub open spec fn compact_detail_lines(r: CompactReport) -> Seq<Seq<char>> {
    seq![
        "raw_events_before: "@ + decimal(r.raw_events_before as nat),
        "zstd_events_before: "@ + decimal(r.zstd_events_before as nat),
        "raw_events_after: "@ + decimal(r.raw_events_after as nat),
        "zstd_events_after: "@ + decimal(r.zstd_events_after as nat),
        "unsupported_codec_events: "@ + decimal(r.unsupported_codec_events as nat),
        "skipped_raw_events: "@ + decimal(r.skipped_raw_events as nat),
        "skipped_small_events: "@ + decimal(r.skipped_small_events as nat),
        "skipped_not_smaller_events: "@ + decimal(r.skipped_not_smaller_events as nat),
        "skipped_round_trip_failed_events: "@ + decimal(r.skipped_round_trip_failed_events as nat),
        "stored_bytes_before: "@ + decimal(r.stored_bytes_before as nat),
        "stored_bytes_after: "@ + decimal(r.stored_bytes_after as nat),
        "sqlite_reclaimable_bytes_before: "@ + decimal(r.sqlite_reclaimable_bytes_before as nat),
    ]
}

/// The compaction report: the headline counts always, the storage details
/// with `--details`, and the next step for the mode that ran.
pub open spec fn compact_lines(r: CompactReport, details: bool) -> Seq<Seq<char>> {
    seq!["jottrace compact"@, "mode: "@ + mode_name(r.mode)] + when(details, "db: "@ + r.db_path@)
        + when(details && r.mode != CompactMode::Vacuum, "batch_size: "@ + decimal(r.batch_size as nat))
        + seq!["eligible_raw_events: "@ + decimal(r.eligible_raw_events as nat)] + when(
        details || r.mode == CompactMode::Apply,
        "converted_events: "@ + decimal(r.converted_events as nat),
    ) + seq!["estimated_bytes_saved: "@ + decimal(r.estimated_bytes_saved as nat)] + (if details {
        compact_detail_lines(r)
    } else {
        Seq::empty()
    }) + when(
        details || r.mode != CompactMode::DryRun,
        "sqlite_reclaimable_bytes: "@ + decimal(r.sqlite_reclaimable_bytes as nat),
    ) + seq!["unresolved_ingest_errors: "@ + decimal(r.unresolved_ingest_errors as nat)] + when(
        r.mode == CompactMode::DryRun,
        "next: rerun with `jottrace compact --apply` to rewrite eligible payloads"@,
    ) + when(
        details || r.mode == CompactMode::Apply,
        "disk_reclaim: after applying, run `jottrace compact --vacuum` to reclaim free SQLite pages"@,
    )
}

fn compact_details(out: &mut Vec<String>, r: &CompactReport)
    ensures
        lines_view(final(out)@) == lines_view(old(out)@) + compact_detail_lines(*r),
{
    let ghost start = lines_view(out@);
    push_line(out, count_line("raw_events_before: ", r.raw_events_before));
    push_line(out, count_line("zstd_events_before: ", r.zstd_events_before));
    push_line(out, count_line("raw_events_after: ", r.raw_events_after));
    push_line(out, count_line("zstd_events_after: ", r.zstd_events_after));
    push_line(out, count_line("unsupported_codec_events: ", r.unsupported_codec_events));
    push_line(out, count_line("skipped_raw_events: ", r.skipped_raw_events));
    push_line(out, count_line("skipped_small_events: ", r.skipped_small_events));
    push_line(out, count_line("skipped_not_smaller_events: ", r.skipped_not_smaller_events));
    push_line(out, count_line("skipped_round_trip_failed_events: ", r.skipped_round_trip_failed_events));
    push_line(out, count_line("stored_bytes_before: ", r.stored_bytes_before));
    push_line(out, count_line("stored_bytes_after: ", r.stored_bytes_after));
    push_line(out, count_line("sqlite_reclaimable_bytes_before: ", r.sqlite_reclaimable_bytes_before));
    proof {
        assert(lines_view(out@) =~= start + compact_detail_lines(*r));
    }
}

pub fn compact_report_lines(report: &CompactReport, details: bool) -> (out: Vec<String>)
    ensures
        lines_view(out@) == compact_lines(*report, details),
{
    let mut out: Vec<String> = Vec::new();
    push_line(&mut out, owned("jottrace compact"));
    push_line(&mut out, text_line("mode: ", crate::cli::compact_mode_name(report.mode)));
    if details {
        push_line(&mut out, text_line("db: ", report.db_path.as_str()));
    }
    if details && report.mode != CompactMode::Vacuum {
        push_line(&mut out, count_line("batch_size: ", report.batch_size as u64));
    }
    push_line(&mut out, count_line("eligible_raw_events: ", report.eligible_raw_events));
    if details || report.mode == CompactMode::Apply {
        push_line(&mut out, count_line("converted_events: ", report.converted_events));
    }
    push_line(&mut out, count_line("estimated_bytes_saved: ", report.estimated_bytes_saved));
    let ghost mid = lines_view(out@);
    if details {
        compact_details(&mut out, report);
    }
    let ghost after_details = lines_view(out@);
    if details || report.mode != CompactMode::DryRun {
        push_line(&mut out, count_line("sqlite_reclaimable_bytes: ", report.sqlite_reclaimable_bytes));
    }
    push_line(&mut out, count_line("unresolved_ingest_errors: ", report.unresolved_ingest_errors));
    if report.mode == CompactMode::DryRun {
        push_line(&mut out, owned("next: rerun with `jottrace compact --apply` to rewrite eligible payloads"));
    }
    if details || report.mode == CompactMode::Apply {
        push_line(
            &mut out,
            owned("disk_reclaim: after applying, run `jottrace compact --vacuum` to reclaim free SQLite pages"),
        );
    }
    proof {
        assert(after_details =~= mid + if details {
            compact_detail_lines(*report)
        } else {
            Seq::empty()
        });
        assert(lines_view(out@) =~= compact_lines(*report, details));
    }
    out
}

// ---------------------------------------------------------------------------
// taste
// ---------------------------------------------------------------------------
pub open spec fn extract_lines(r: TasteExtractReport) -> Seq<Seq<char>> {
    seq![
        "sessions_processed: "@ + decimal(r.sessions_processed as nat),
        "sessions_skipped: "@ + decimal(r.sessions_skipped as nat),
        "timeline_rows: "@ + decimal(r.timeline_rows_written as nat),
        "preference_examples: "@ + decimal(r.preference_examples_written as nat),
    ]
}

pub fn taste_extract_report_lines(report: &TasteExtractReport) -> (out: Vec<String>)
    ensures
        lines_view(out@) == extract_lines(*report),
{
    let mut out: Vec<String> = Vec::new();
    push_line(&mut out, count_line("sessions_processed: ", report.sessions_processed));
    push_line(&mut out, count_line("sessions_skipped: ", report.sessions_skipped));
    push_line(&mut out, count_line("timeline_rows: ", report.timeline_rows_written));
    push_line(&mut out, count_line("preference_examples: ", report.preference_examples_written));
    proof {
        assert(lines_view(out@) =~= extract_lines(*report));
    }
    out
}

/// The export report, written to standard error so that standard output can
/// carry the export itself.
pub open spec fn export_lines(r: TasteExportReport) -> Seq<Seq<char>> {
    seq![
        "jottrace taste export"@,
        "format: "@ + "jsonl"@,
        match r.output_path {
            Some(p) => "out: "@ + p@,
            None => "out: <stdout>"@,
        },
        "rows_exported: "@ + decimal(r.rows_exported as nat),
    ]
}

pub fn taste_export_report_lines(report: &TasteExportReport) -> (out: Vec<String>)
    ensures
        lines_view(out@) == export_lines(*report),
{
    let mut out: Vec<String> = Vec::new();
    push_line(&mut out, owned("jottrace taste export"));
    push_line(&mut out, text_line("format: ", report.format.as_str()));
    match &report.output_path {
        Some(p) => push_line(&mut out, text_line("out: ", p.as_str())),
        None => push_line(&mut out, owned("out: <stdout>")),
    }
    push_line(&mut out, count_line("rows_exported: ", report.rows_exported));
    proof {
        assert(lines_view(out@) =~= export_lines(*report));
    }
    out
}

/// A confidence kept in hundredths, written as the number it stands for:
/// `100` is `1`, `50` is `0.5`, `85` is `0.85`.
pub open spec fn confidence_text(c: nat) -> Seq<char> {
    if c % 100 == 0 {
        decimal(c / 100)
    } else if c % 10 == 0 {
        decimal(c / 100) + "."@ + decimal((c % 100) / 10)
    } else {
        decimal(c / 100) + "."@ + crate::text::zero_padded(c % 100, 2)
    }
}

fn confidence_chars(c: u8) -> (out: Vec<char>)
    ensures
        out@ == confidence_text(c as nat),
{
    let whole = crate::text::decimal_chars((c / 100) as u64);
    let frac = c % 100;
    let mut out = whole;
    if frac == 0 {
    } else if frac % 10 == 0 {
        out.push('.');
        let d = crate::text::decimal_chars((frac / 10) as u64);
        let ghost w = out@;
        push_all(&mut out, d.as_slice());
        proof {
            assert(out@ =~= decimal((c / 100) as nat) + "."@ + decimal(((c % 100) / 10) as nat)) by {
                reveal_strlit(".");
            }
        }
    } else {
        out.push('.');
        crate::text::push_zero_padded(&mut out, frac as u64, 2);
        proof {
            assert(out@ =~= decimal((c / 100) as nat) + "."@ + crate::text::zero_padded(
                (c % 100) as nat,
                2,
            )) by {
                reveal_strlit(".");
            }
        }
    }
    out
}

pub open spec fn example_lines(e: PreferenceExample) -> Seq<Seq<char>> {
    seq![
        "jottrace taste show example"@,
        "tool_use_id: "@ + e.tool_use_id@,
        "session: "@ + e.source_session_id@,
        "generation: "@ + decimal(e.generation as nat),
        "proposal_event_seq: "@ + decimal(e.proposal_event_seq as nat),
        "file: "@ + match e.file_path {
            Some(p) => p@,
            None => "-"@,
        },
        "tool: "@ + e.tool_name@,
        "outcome: "@ + crate::taste::compiler::outcome_name(e.outcome),
        "confidence: "@ + confidence_text(e.confidence as nat),
        "evidence_kind: "@ + crate::taste::compiler::evidence_name(e.evidence_kind),
        "extractor_version: "@ + e.extractor_version@,
        "proposal:"@,
        match e.proposal_content {
            Some(c) => c@,
            None => "<missing proposal>"@,
        },
        "context:"@,
        match e.context {
            Some(c) => c@,
            None => "<missing context>"@,
        },
    ]
}

fn or_text(value: &Option<String>, fallback: &str) -> (r: String)
    ensures
        r@ == match value {
            Some(v) => v@,
            None => fallback@,
        },
{
    match value {
        Some(v) => owned(v.as_str()),
        None => owned(fallback),
    }
}

pub fn taste_example_report_lines(example: &PreferenceExample) -> (out: Vec<String>)
    ensures
        lines_view(out@) == example_lines(*example),
{
    let mut out: Vec<String> = Vec::new();
    push_line(&mut out, owned("jottrace taste show example"));
    push_line(&mut out, text_line("tool_use_id: ", example.tool_use_id.as_str()));
    push_line(&mut out, text_line("session: ", example.source_session_id.as_str()));
    push_line(&mut out, count_line("generation: ", example.generation as u64));
    push_line(&mut out, count_line("proposal_event_seq: ", example.proposal_event_seq as u64));
    let file = or_text(&example.file_path, "-");
    push_line(&mut out, text_line("file: ", file.as_str()));
    push_line(&mut out, text_line("tool: ", example.tool_name.as_str()));
    push_line(&mut out, text_line("outcome: ", example.outcome.as_str()));
    let mut conf: Vec<char> = Vec::new();
    push_str(&mut conf, "confidence: ");
    let cc = confidence_chars(example.confidence);
    push_all(&mut conf, cc.as_slice());
    push_line(&mut out, string_from_chars(conf.as_slice()));
    push_line(&mut out, text_line("evidence_kind: ", example.evidence_kind.as_str()));
    push_line(&mut out, text_line("extractor_version: ", example.extractor_version.as_str()));
    push_line(&mut out, owned("proposal:"));
    push_line(&mut out, or_text(&example.proposal_content, "<missing proposal>"));
    push_line(&mut out, owned("context:"));
    push_line(&mut out, or_text(&example.context, "<missing context>"));
    proof {
        assert(lines_view(out@) =~= example_lines(*example));
    }
    out
}

pub open spec fn timeline_row_lines(row: crate::taste::timeline::FileTimelineRow, last: bool) -> Seq<Seq<char>> {
    seq![
        "seq "@ + decimal(row.seq as nat) + " (event_seq "@ + decimal(row.event_seq as nat) + ") ["@
            + row.source_kind.name() + "] trigger="@ + match row.trigger_event_ref {
            Some(t) => t@,
            None => "-"@,
        },
        match row.content {
            Some(c) => c@,
            None => "<missing content>"@,
        },
    ] + if last {
        Seq::empty()
    } else {
        seq![""@]
    }
}

/// The rows' lines; a blank line follows each row whose `seq` is not the last position.
pub open spec fn timeline_rows_lines(rows: Seq<crate::taste::timeline::FileTimelineRow>, total: nat) -> Seq<Seq<char>>
    decreases rows.len(),
{
    if rows.len() == 0 {
        Seq::empty()
    } else {
        timeline_rows_lines(rows.drop_last(), total) + timeline_row_lines(
            rows.last(),
            !(rows.last().seq + 1 < total),
        )
    }
}

pub open spec fn timeline_lines(r: TasteTimelineShowReport) -> Seq<Seq<char>> {
    seq![
        "jottrace taste show timeline"@,
        "session: "@ + r.source_session_id@,
        "file: "@ + r.file_path@,
        "rows: "@ + decimal(r.rows.len() as nat),
    ] + timeline_rows_lines(r.rows@, r.rows.len() as nat)
}

fn timeline_row_head(row: &crate::taste::timeline::FileTimelineRow) -> (r: String)
    ensures
        r@ == "seq "@ + decimal(row.seq as nat) + " (event_seq "@ + decimal(row.event_seq as nat) + ") ["@
            + row.source_kind.name() + "] trigger="@ + match row.trigger_event_ref {
            Some(t) => t@,
            None => "-"@,
        },
{
    let mut t: Vec<char> = Vec::new();
    push_str(&mut t, "seq ");
    let s = crate::text::decimal_chars(row.seq as u64);
    push_all(&mut t, s.as_slice());
    push_str(&mut t, " (event_seq ");
    let e = crate::text::decimal_chars(row.event_seq as u64);
    push_all(&mut t, e.as_slice());
    push_str(&mut t, ") [");
    push_str(&mut t, row.source_kind.as_str());
    push_str(&mut t, "] trigger=");
    let trigger = or_text(&row.trigger_event_ref, "-");
    push_str(&mut t, trigger.as_str());
    proof {
        assert(t@ =~= "seq "@ + decimal(row.seq as nat) + " (event_seq "@ + decimal(row.event_seq as nat)
            + ") ["@ + row.source_kind.name() + "] trigger="@ + trigger@);
    }
    string_from_chars(t.as_slice())
}

pub fn taste_timeline_report_lines(report: &TasteTimelineShowReport) -> (out: Vec<String>)
    ensures
        lines_view(out@) == timeline_lines(*report),
{
    let mut out: Vec<String> = Vec::new();
    push_line(&mut out, owned("jottrace taste show timeline"));
    push_line(&mut out, text_line("session: ", report.source_session_id.as_str()));
    push_line(&mut out, text_line("file: ", report.file_path.as_str()));
    push_line(&mut out, count_line("rows: ", report.rows.len() as u64));
    let ghost head = lines_view(out@);
    let n = report.rows.len();
    let mut i: usize = 0;
    while i < n
        invariant
            i <= n == report.rows.len(),
            lines_view(out@) == head + timeline_rows_lines(report.rows@.take(i as int), n as nat),
        decreases n - i,
    {
        let row = &report.rows[i];
        proof {
            assert(report.rows@.take(i + 1).drop_last() =~= report.rows@.take(i as int));
        }
        let ghost before = lines_view(out@);
        push_line(&mut out, timeline_row_head(row));
        push_line(&mut out, or_text(&row.content, "<missing content>"));
        if row.seq < n - 1 {
            push_line(&mut out, owned(""));
        }
        proof {
            assert(lines_view(out@) =~= before + timeline_row_lines(*row, !(row.seq + 1 < n)));
        }
        i = i + 1;
    }
    proof {
        assert(report.rows@.take(n as int) =~= report.rows@);
        assert(lines_view(out@) =~= timeline_lines(*report));
    }
    out
}

/// The lines printed when the journal browser starts listening.
pub open spec fn web_startup_lines(url: Seq<char>, db_path: Seq<char>) -> Seq<Seq<char>> {
    seq!["jottrace web"@, "url: "@ + url, "db: "@ + db_path]
}

pub fn web_startup_report_lines(url: &str, db_path: &str) -> (out: Vec<String>)
    ensures
        lines_view(out@) == web_startup_lines(url@, db_path@),
{
    let mut out: Vec<String> = Vec::new();
    push_line(&mut out, owned("jottrace web"));
    push_line(&mut out, text_line("url: ", url));
    push_line(&mut out, text_line("db: ", db_path));
    proof {
        assert(lines_view(out@) =~= web_startup_lines(url@, db_path@));
    }
    out
}

} // verus!

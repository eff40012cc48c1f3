//! What a taste export holds: one record per labeled example, in the
//! trainer-facing `(context, chosen, rejected)` shape, one JSON document per line.
use vstd::prelude::*;

use crate::taste::compiler::{
    evidence_name, outcome_name, EvidenceKind, PreferenceExample, PreferenceOutcome,
};
use crate::text::str_eq;

verus! {

/// Supported export serialization formats.
#[derive(Debug, Clone, Copy, PartialEq, Eq, Structural)]
pub enum TasteExportFormat {
    Jsonl,
}

impl TasteExportFormat {
    /// The format named on the command line.
    pub fn from_cli(value: &str) -> (r: Option<TasteExportFormat>)
        ensures
            r == if value@ == "jsonl"@ {
                Some(TasteExportFormat::Jsonl)
            } else {
                None
            },
    {
        if str_eq(value, "jsonl") {
            Some(TasteExportFormat::Jsonl)
        } else {
            None
        }
    }

    pub fn as_str(self) -> (r: &'static str)
        ensures
            r@ == "jsonl"@,
    {
        match self {
            TasteExportFormat::Jsonl => "jsonl",
        }
    }
}

/// Options for `jottrace taste export`.
#[derive(Debug, Clone, PartialEq, Eq)]
pub struct TasteExportOptions {
    pub format: TasteExportFormat,
    pub output_path: Option<String>,
}

/// Summary of an export run.
#[derive(Debug, Clone, PartialEq, Eq)]
pub struct TasteExportReport {
    pub db_path: String,
    pub format: TasteExportFormat,
    pub output_path: Option<String>,
    pub rows_exported: u64,
}

/// One export record. `confidence` is in hundredths.
#[derive(Debug, Clone, PartialEq, Eq)]
pub struct TasteExportRecord {
    pub context: Option<String>,
    pub chosen: Option<String>,
    pub rejected: Option<String>,
    pub outcome: &'static str,
    pub confidence: u8,
    pub tool_use_id: String,
    pub source_session_id: String,
    pub file_path: Option<String>,
    pub tool_name: String,
    pub evidence_kind: &'static str,
}

pub open spec fn text_opt(s: Option<String>) -> Option<Seq<char>> {
    match s {
        Some(t) => Some(t@),
        None => None,
    }
}

fn copy_text(s: &Option<String>) -> (r: Option<String>)
    ensures
        text_opt(r) == text_opt(*s),
{
    match s {
        Some(t) => Some(t.clone()),
        None => None,
    }
}

/// The export record of an example: an accepted or edited proposal is the
/// chosen text, a rejected one the rejected text.
pub fn export_record(example: &PreferenceExample) -> (r: TasteExportRecord)
    ensures
        text_opt(r.context) == text_opt(example.context),
        text_opt(r.chosen) == match example.outcome {
            PreferenceOutcome::Rejected => None,
            _ => text_opt(example.proposal_content),
        },
        text_opt(r.rejected) == match example.outcome {
            PreferenceOutcome::Rejected => text_opt(example.proposal_content),
            _ => None,
        },
        r.outcome@ == outcome_name(example.outcome),
        r.confidence == example.confidence,
        r.tool_use_id@ == example.tool_use_id@,
        r.source_session_id@ == example.source_session_id@,
        text_opt(r.file_path) == text_opt(example.file_path),
        r.tool_name@ == example.tool_name@,
        r.evidence_kind@ == evidence_name(example.evidence_kind),
{
    let (chosen, rejected) = match example.outcome {
        PreferenceOutcome::Rejected => (None, copy_text(&example.proposal_content)),
        _ => (copy_text(&example.proposal_content), None),
    };
    TasteExportRecord {
        context: copy_text(&example.context),
        chosen,
        rejected,
        outcome: example.outcome.as_str(),
        confidence: example.confidence,
        tool_use_id: example.tool_use_id.clone(),
        source_session_id: example.source_session_id.clone(),
        file_path: copy_text(&example.file_path),
        tool_name: example.tool_name.clone(),
        evidence_kind: example.evidence_kind.as_str(),
    }
}

/// The records, each followed by a newline.
pub open spec fn jsonl_framed(records: Seq<Seq<u8>>) -> Seq<u8>
    decreases records.len(),
{
    if records.len() == 0 {
        Seq::empty()
    } else {
        jsonl_framed(records.drop_last()) + records.last().push(10u8)
    }
}

/// Frames serialized records as JSON Lines.
pub fn frame_jsonl(records: &Vec<Vec<u8>>) -> (out: Vec<u8>)
    ensures
        out@ == jsonl_framed(records@.map_values(|r: Vec<u8>| r@)),
{
    let mut out: Vec<u8> = Vec::new();
    let mut i: usize = 0;
    while i < records.len()
        invariant
            i <= records.len(),
            out@ == jsonl_framed(records@.map_values(|r: Vec<u8>| r@).take(i as int)),
        decreases records.len() - i,
    {
        let ghost before = out@;
        let r = &records[i];
        let mut j: usize = 0;
        while j < r.len()
            invariant
                j <= r.len(),
                out@ == before + r@.take(j as int),
            decreases r.len() - j,
        {
            out.push(r[j]);
            j = j + 1;
            proof {
                assert(r@.take(j as int) =~= r@.take(j - 1).push(r@[j - 1]));
            }
        }
        out.push(10u8);
        proof {
            let rs = records@.map_values(|r: Vec<u8>| r@);
            assert(rs.take(i + 1).drop_last() =~= rs.take(i as int));
            assert(r@.take(r.len() as int) =~= r@);
            assert(out@ =~= before + r@.push(10u8));
        }
        i = i + 1;
    }
    proof {
        assert(records@.map_values(|r: Vec<u8>| r@).take(records.len() as int) =~= records@.map_values(
            |r: Vec<u8>| r@,
        ));
    }
    out
}

} // verus!

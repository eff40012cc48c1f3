//! Counts behind `jottrace taste status`.
use vstd::prelude::*;

use crate::text::str_eq;

verus! {

/// Outcome class counts from materialized preference rows.
#[derive(Debug, Clone, Copy, PartialEq, Eq, Default, Structural)]
pub struct TasteOutcomeCounts {
    pub accepted: u64,
    pub rejected: u64,
    pub edited: u64,
}

/// Evidence-kind counts from materialized preference rows.
#[derive(Debug, Clone, Copy, PartialEq, Eq, Default, Structural)]
pub struct TasteEvidenceCounts {
    pub direct_edit: u64,
    pub direct_write: u64,
    pub bash_correlation: u64,
    pub mcp_correlation: u64,
    pub permission_denial: u64,
    pub missing_final_state: u64,
}

impl TasteOutcomeCounts {
    /// Records the count of one `outcome` group: a known outcome name sets its
    /// count, any other name is ignored.
    pub fn record_row(&mut self, outcome: &str, count: u64)
        ensures
            final(self).accepted == if outcome@ == "accepted"@ {
                count
            } else {
                old(self).accepted
            },
            final(self).rejected == if outcome@ == "rejected"@ {
                count
            } else {
                old(self).rejected
            },
            final(self).edited == if outcome@ == "edited"@ {
                count
            } else {
                old(self).edited
            },
    {
        proof {
            reveal_strlit("accepted");
            reveal_strlit("rejected");
            reveal_strlit("edited");
            assert("accepted"@[0] != "rejected"@[0]);
            assert("accepted"@ != "rejected"@);
            assert("accepted"@ != "edited"@);
            assert("rejected"@ != "edited"@);
        }
        if str_eq(outcome, "accepted") {
            self.accepted = count;
        } else if str_eq(outcome, "rejected") {
            self.rejected = count;
        } else if str_eq(outcome, "edited") {
            self.edited = count;
        }
    }
}

/// The evidence-kind names the journal stores, and the field each one counts in.
pub open spec fn evidence_field(kind: Seq<char>) -> int {
    if kind == "direct_edit"@ {
        0
    } else if kind == "direct_write"@ {
        1
    } else if kind == "bash_correlation"@ {
        2
    } else if kind == "mcp_correlation"@ {
        3
    } else if kind == "permission_denial"@ {
        4
    } else if kind == "missing_final_state"@ {
        5
    } else {
        -1
    }
}

impl TasteEvidenceCounts {
    /// Records the count of one `evidence_kind` group: a known kind sets its
    /// count, any other name is ignored.
    pub fn record_row(&mut self, evidence_kind: &str, count: u64)
        ensures
            final(self).direct_edit == if evidence_field(evidence_kind@) == 0 {
                count
            } else {
                old(self).direct_edit
            },
            final(self).direct_write == if evidence_field(evidence_kind@) == 1 {
                count
            } else {
                old(self).direct_write
            },
            final(self).bash_correlation == if evidence_field(evidence_kind@) == 2 {
                count
            } else {
                old(self).bash_correlation
            },
            final(self).mcp_correlation == if evidence_field(evidence_kind@) == 3 {
                count
            } else {
                old(self).mcp_correlation
            },
            final(self).permission_denial == if evidence_field(evidence_kind@) == 4 {
                count
            } else {
                old(self).permission_denial
            },
            final(self).missing_final_state == if evidence_field(evidence_kind@) == 5 {
                count
            } else {
                old(self).missing_final_state
            },
    {
        if str_eq(evidence_kind, "direct_edit") {
            self.direct_edit = count;
        } else if str_eq(evidence_kind, "direct_write") {
            self.direct_write = count;
        } else if str_eq(evidence_kind, "bash_correlation") {
            self.bash_correlation = count;
        } else if str_eq(evidence_kind, "mcp_correlation") {
            self.mcp_correlation = count;
        } else if str_eq(evidence_kind, "permission_denial") {
            self.permission_denial = count;
        } else if str_eq(evidence_kind, "missing_final_state") {
            self.missing_final_state = count;
        }
    }
}

/// Parent sessions whose extraction is not up to date.
pub fn sessions_pending(parent_sessions: u64, up_to_date: u64) -> (r: u64)
    ensures
        r == if up_to_date <= parent_sessions {
            parent_sessions - up_to_date
        } else {
            0
        },
{
    parent_sessions.saturating_sub(up_to_date)
}

} // verus!

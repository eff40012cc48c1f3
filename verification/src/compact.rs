//! Compaction of raw event payloads into zstd: which payloads qualify, what a
//! batch changes, the before/after estimates, and the report.
//!
//! Reading batches from the journal and writing the updates back happen
//! outside the library, batch by batch; every decision is made here.
use vstd::prelude::*;

use crate::error::JottraceError;
use crate::storage::{decode_event_payload, encode_event_payload, encoded_spec, CodecFailure};
use crate::text::str_eq;

verus! {

pub const DEFAULT_COMPACT_BATCH_SIZE: usize = 1000;

pub const MAX_COMPACT_BATCH_SIZE: usize = 10000;

/// What a compaction run does.
#[derive(Debug, Clone, Copy, PartialEq, Eq, Structural)]
pub enum CompactMode {
    /// Count and estimate only.
    DryRun,
    /// Rewrite eligible payloads.
    Apply,
    /// Reclaim free SQLite pages.
    Vacuum,
}

#[derive(Debug, Clone, Copy, PartialEq, Eq, Structural)]
pub struct CompactOptions {
    pub mode: CompactMode,
    pub batch_size: usize,
}

impl Default for CompactOptions {
    /// A dry run in batches of `DEFAULT_COMPACT_BATCH_SIZE`.
    fn default() -> (r: Self)
        ensures
            r == (CompactOptions { mode: CompactMode::DryRun, batch_size: DEFAULT_COMPACT_BATCH_SIZE }),
    {
        CompactOptions { mode: CompactMode::DryRun, batch_size: DEFAULT_COMPACT_BATCH_SIZE }
    }
}

#[derive(Debug, Clone, PartialEq, Eq)]
pub struct CompactReport {
    pub db_path: String,
    pub mode: CompactMode,
    pub batch_size: usize,
    pub raw_events_before: u64,
    pub zstd_events_before: u64,
    pub raw_events_after: u64,
    pub zstd_events_after: u64,
    pub unsupported_codec_events: u64,
    pub eligible_raw_events: u64,
    pub converted_events: u64,
    pub skipped_raw_events: u64,
    pub skipped_small_events: u64,
    pub skipped_not_smaller_events: u64,
    pub skipped_round_trip_failed_events: u64,
    pub stored_bytes_before: u64,
    pub stored_bytes_after: u64,
    pub estimated_bytes_saved: u64,
    pub sqlite_reclaimable_bytes_before: u64,
    pub sqlite_reclaimable_bytes: u64,
    pub unresolved_ingest_errors: u64,
}

/// Counts of stored events by codec, and the bytes their payloads take.
#[derive(Debug, Default, Clone, Copy, PartialEq, Eq, Structural)]
pub struct EventStorageStats {
    pub raw_events: u64,
    pub zstd_events: u64,
    pub unsupported_codec_events: u64,
    pub stored_bytes: u64,
}

/// What a scan of raw payloads found.
#[derive(Debug, Default, Clone, Copy, PartialEq, Eq, Structural)]
pub struct RawPayloadAnalysis {
    pub eligible_events: u64,
    pub skipped_small_events: u64,
    pub skipped_not_smaller_events: u64,
    pub skipped_round_trip_failed_events: u64,
    pub estimated_bytes_saved: u64,
    pub converted_events: u64,
}

impl RawPayloadAnalysis {
    /// A scan that found nothing yet, except the small payloads counted up front.
    pub fn starting_with_small(skipped_small_events: u64) -> (r: Self)
        ensures
            r == (RawPayloadAnalysis {
                eligible_events: 0,
                skipped_small_events,
                skipped_not_smaller_events: 0,
                skipped_round_trip_failed_events: 0,
                estimated_bytes_saved: 0,
                converted_events: 0,
            }),
    {
        RawPayloadAnalysis {
            eligible_events: 0,
            skipped_small_events,
            skipped_not_smaller_events: 0,
            skipped_round_trip_failed_events: 0,
            estimated_bytes_saved: 0,
            converted_events: 0,
        }
    }

    /// Every raw payload that stays raw, whatever the reason.
    pub fn skipped_events(&self) -> (r: u64)
        requires
            self.skipped_small_events + self.skipped_not_smaller_events
                + self.skipped_round_trip_failed_events <= u64::MAX,
        ensures
            r == self.skipped_small_events + self.skipped_not_smaller_events
                + self.skipped_round_trip_failed_events,
    {
        self.skipped_small_events + self.skipped_not_smaller_events
            + self.skipped_round_trip_failed_events
    }
}

/// The batch size must lie in `1..=MAX_COMPACT_BATCH_SIZE`.
pub fn validate_compact_options(options: CompactOptions) -> (r: Result<(), JottraceError>)
    ensures
        r is Ok <==> 1 <= options.batch_size <= MAX_COMPACT_BATCH_SIZE,
        r is Err ==> r->Err_0 == (JottraceError::InvalidCompactBatchSize {
            batch_size: options.batch_size,
            max: MAX_COMPACT_BATCH_SIZE,
        }),
{
    if 1 <= options.batch_size && options.batch_size <= MAX_COMPACT_BATCH_SIZE {
        return Ok(());
    }
    Err(
        JottraceError::InvalidCompactBatchSize {
            batch_size: options.batch_size,
            max: MAX_COMPACT_BATCH_SIZE,
        },
    )
}

/// The storage after `converted_events` raw events became zstd and the scan's
/// estimated savings were made.
pub open spec fn estimate_spec(before: EventStorageStats, converted_events: u64, saved: u64) -> EventStorageStats {
    EventStorageStats {
        raw_events: if before.raw_events >= converted_events {
            (before.raw_events - converted_events) as u64
        } else {
            0
        },
        zstd_events: (before.zstd_events + converted_events) as u64,
        unsupported_codec_events: before.unsupported_codec_events,
        stored_bytes: if before.stored_bytes >= saved {
            (before.stored_bytes - saved) as u64
        } else {
            0
        },
    }
}

pub fn compacted_storage_estimate(
    before: &EventStorageStats,
    converted_events: u64,
    analysis: &RawPayloadAnalysis,
) -> (r: EventStorageStats)
    requires
        before.zstd_events + converted_events <= u64::MAX,
    ensures
        r == estimate_spec(*before, converted_events, analysis.estimated_bytes_saved),
{
    EventStorageStats {
        raw_events: before.raw_events.saturating_sub(converted_events),
        zstd_events: before.zstd_events + converted_events,
        unsupported_codec_events: before.unsupported_codec_events,
        stored_bytes: before.stored_bytes.saturating_sub(analysis.estimated_bytes_saved),
    }
}

// ---------------------------------------------------------------------------
// One payload
// ---------------------------------------------------------------------------
/// What to do with one raw payload.
#[derive(Debug, Clone, PartialEq, Eq)]
pub enum RawPayloadPlan {
    /// Store it compressed, saving `saved_bytes`.
    Compact { payload: Vec<u8>, payload_size: usize, saved_bytes: u64 },
    /// Compression does not make it smaller.
    SkipNotSmaller,
    /// The compressed form does not decode back to it.
    SkipRoundTripFailed,
}

/// The compressed form of a payload where compaction applies to it.
pub open spec fn compressed_form(payload: Seq<u8>) -> Option<Seq<u8>> {
    match encoded_spec(payload) {
        Ok((bytes, codec)) => if codec == "zstd"@ {
            Some(bytes)
        } else {
            None
        },
        Err(_) => None,
    }
}

pub open spec fn is_codec_error(r: Result<RawPayloadPlan, JottraceError>, payload: Seq<u8>) -> bool {
    exists|m: Seq<char>|
        encoded_spec(payload) == Err::<(Seq<u8>, Seq<char>), Seq<char>>(m) && r is Err
            && crate::storage::codec_view(Err(r->Err_0)) == Err::<Seq<u8>, Option<CodecFailure>>(
            Some(CodecFailure::Zstd(m)),
        )
}

/// Plans one raw payload: compact it when its stored form would be zstd,
/// saving the difference in length; skip it when that form stays raw; fail
/// when compressing fails. A compressed form always decodes back to the
/// payload, so the round-trip skip never happens.
pub fn compact_raw_payload(payload: &[u8]) -> (r: Result<RawPayloadPlan, JottraceError>)
    ensures
        match encoded_spec(payload@) {
            Err(_) => is_codec_error(r, payload@),
            Ok(_) => match compressed_form(payload@) {
                Some(c) => r is Ok && r->Ok_0 is Compact && r->Ok_0->Compact_payload@ == c
                    && r->Ok_0->Compact_payload_size == payload.len()
                    && r->Ok_0->Compact_saved_bytes == payload.len() - c.len()
                    && crate::storage::decoded_spec(c, "zstd"@) == Ok::<Seq<u8>, Option<CodecFailure>>(payload@),
                None => r == Ok::<RawPayloadPlan, JottraceError>(RawPayloadPlan::SkipNotSmaller),
            },
        },
{
    let encoded = match encode_event_payload(payload) {
        Ok(e) => e,
        Err(e) => {
            return Err(e);
        },
    };
    proof {
        reveal_strlit("raw");
        reveal_strlit("zstd");
        assert("zstd"@.len() != "raw"@.len());
    }
    if str_eq(encoded.codec, crate::storage::RAW_CODEC) {
        return Ok(RawPayloadPlan::SkipNotSmaller);
    }
    let decoded = match decode_event_payload(encoded.payload.as_slice(), encoded.codec) {
        Ok(d) => d,
        Err(e) => {
            return Err(e);
        },
    };
    if !crate::text::bytes_eq(decoded.as_slice(), payload) {
        return Ok(RawPayloadPlan::SkipRoundTripFailed);
    }
    proof {
        assert(encoded.payload@.len() < payload@.len());
    }
    let saved_bytes = (payload.len() - encoded.payload.len()) as u64;
    Ok(RawPayloadPlan::Compact { payload: encoded.payload, payload_size: encoded.payload_size, saved_bytes })
}

// ---------------------------------------------------------------------------
// One batch
// ---------------------------------------------------------------------------
/// Where an event lives in the journal.
#[derive(Debug, Clone, Copy, PartialEq, Eq, Structural)]
pub struct EventKey {
    pub session_id: i64,
    pub generation: i64,
    pub seq: i64,
}

/// A raw event read for compaction.
#[derive(Debug, Clone, PartialEq, Eq)]
pub struct RawEvent {
    pub key: EventKey,
    pub payload: Vec<u8>,
}

/// A rewrite to apply: the event, its compressed payload, the original size,
/// and the bytes it saves.
#[derive(Debug, Clone, PartialEq, Eq)]
pub struct CompactionUpdate {
    pub key: EventKey,
    pub payload: Vec<u8>,
    pub payload_size: usize,
    pub saved_bytes: u64,
}

/// The rewrites for a batch, in batch order: one per event with a compressed form.
pub open spec fn batch_updates(events: Seq<RawEvent>) -> Seq<(EventKey, Seq<u8>, nat, nat)>
    decreases events.len(),
{
    if events.len() == 0 {
        Seq::empty()
    } else {
        let prev = batch_updates(events.drop_last());
        let e = events.last();
        match compressed_form(e.payload@) {
            Some(c) => prev.push((e.key, c, e.payload@.len(), (e.payload@.len() - c.len()) as nat)),
            None => prev,
        }
    }
}

pub open spec fn update_view(u: CompactionUpdate) -> (EventKey, Seq<u8>, nat, nat) {
    (u.key, u.payload@, u.payload_size as nat, u.saved_bytes as nat)
}

/// Every payload of the batch can be encoded.
pub open spec fn all_encodable(events: Seq<RawEvent>) -> bool {
    forall|k: int| 0 <= k < events.len() ==> (#[trigger] encoded_spec(events[k].payload@)) is Ok
}

/// Total bytes saved by a list of rewrites.
pub open spec fn saved_total(updates: Seq<(EventKey, Seq<u8>, nat, nat)>) -> nat
    decreases updates.len(),
{
    if updates.len() == 0 {
        0
    } else {
        saved_total(updates.drop_last()) + updates.last().3
    }
}

proof fn lemma_batch_updates_len(events: Seq<RawEvent>)
    ensures
        batch_updates(events).len() <= events.len(),
    decreases events.len(),
{
    if events.len() > 0 {
        lemma_batch_updates_len(events.drop_last());
    }
}

/// A rewrite decodes back, as zstd, to the payload of an event of the batch
/// with its key.
pub open spec fn rewrite_decodes_back(u: CompactionUpdate, events: Seq<RawEvent>) -> bool {
    exists|k: int|
        0 <= k < events.len() && #[trigger] events[k].key == u.key && crate::storage::decoded_spec(
            u.payload@,
            "zstd"@,
        ) == Ok::<Seq<u8>, Option<CodecFailure>>(events[k].payload@)
}

/// Plans a batch of raw events: the rewrites for the payloads that compress,
/// counting them as eligible, the others as not smaller (or, were a compressed
/// form not to decode back, as failed round trips). Each rewrite decodes back
/// to its event's payload. The first payload that cannot be compressed fails
/// the batch.
pub fn plan_batch(events: &[RawEvent], analysis: &mut RawPayloadAnalysis) -> (r: Result<
    Vec<CompactionUpdate>,
    JottraceError,
>)
    requires
        old(analysis).eligible_events + events.len() <= u64::MAX,
        old(analysis).skipped_not_smaller_events + events.len() <= u64::MAX,
    ensures
        match r {
            Ok(updates) => {
                &&& all_encodable(events@)
                &&& updates@.map_values(|u: CompactionUpdate| update_view(u)) == batch_updates(events@)
                &&& forall|i: int| 0 <= i < updates.len() ==> rewrite_decodes_back(#[trigger] updates@[i], events@)
                &&& final(analysis).eligible_events == old(analysis).eligible_events + updates.len()
                &&& final(analysis).skipped_not_smaller_events == old(analysis).skipped_not_smaller_events
                    + (events.len() - updates.len())
                &&& final(analysis).skipped_small_events == old(analysis).skipped_small_events
                &&& final(analysis).skipped_round_trip_failed_events == old(analysis).skipped_round_trip_failed_events
                &&& final(analysis).estimated_bytes_saved == old(analysis).estimated_bytes_saved
                &&& final(analysis).converted_events == old(analysis).converted_events
            },
            Err(_) => !all_encodable(events@),
        },
{
    let mut updates: Vec<CompactionUpdate> = Vec::new();
    let mut i: usize = 0;
    let ghost start = *analysis;
    while i < events.len()
        invariant
            i <= events.len(),
            start == *old(analysis),
            start.eligible_events + events.len() <= u64::MAX,
            start.skipped_not_smaller_events + events.len() <= u64::MAX,
            forall|k: int| 0 <= k < i ==> (#[trigger] encoded_spec(events@[k].payload@)) is Ok,
            updates@.map_values(|u: CompactionUpdate| update_view(u)) == batch_updates(events@.take(i as int)),
            updates.len() <= i,
            forall|j: int| 0 <= j < updates.len() ==> rewrite_decodes_back(#[trigger] updates@[j], events@),
            analysis.eligible_events == start.eligible_events + updates.len(),
            analysis.skipped_not_smaller_events == start.skipped_not_smaller_events + (i - updates.len()),
            analysis.skipped_small_events == start.skipped_small_events,
            analysis.skipped_round_trip_failed_events == start.skipped_round_trip_failed_events,
            analysis.estimated_bytes_saved == start.estimated_bytes_saved,
            analysis.converted_events == start.converted_events,
        decreases events.len() - i,
    {
        let event = &events[i];
        proof {
            assert(events@.take(i + 1).drop_last() =~= events@.take(i as int));
            assert(events@.take(i + 1).last() == events@[i as int]);
        }
        let plan = compact_raw_payload(event.payload.as_slice());
        match plan {
            Ok(RawPayloadPlan::Compact { payload, payload_size, saved_bytes }) => {
                analysis.eligible_events = analysis.eligible_events + 1;
                let ghost before = updates@;
                updates.push(CompactionUpdate { key: event.key, payload, payload_size, saved_bytes });
                proof {
                    assert(rewrite_decodes_back(updates@[updates.len() - 1], events@));
                    assert forall|j: int| 0 <= j < updates.len() implies rewrite_decodes_back(
                        #[trigger] updates@[j],
                        events@,
                    ) by {
                        if j < updates.len() - 1 {
                            assert(updates@[j] == before[j]);
                        }
                    }
                    assert(updates@.map_values(|u: CompactionUpdate| update_view(u)) =~= before.map_values(
                        |u: CompactionUpdate| update_view(u),
                    ).push(update_view(updates@.last())));
                }
            },
            Ok(RawPayloadPlan::SkipNotSmaller) => {
                analysis.skipped_not_smaller_events = analysis.skipped_not_smaller_events + 1;
            },
            Ok(RawPayloadPlan::SkipRoundTripFailed) => {
                analysis.skipped_round_trip_failed_events = analysis.skipped_round_trip_failed_events + 1;
            },
            Err(e) => {
                return Err(e);
            },
        }
        i = i + 1;
    }
    proof {
        assert(events@.take(events.len() as int) =~= events@);
    }
    Ok(updates)
}

/// How many rows a batch of rewrites changed, and the bytes it saved.
#[derive(Debug, Default, Clone, Copy, PartialEq, Eq, Structural)]
pub struct AppliedBatch {
    pub converted_events: u64,
    pub saved_bytes: u64,
}

/// Rows changed by the updates, and the savings of those that changed a row.
pub open spec fn applied_totals(updates: Seq<CompactionUpdate>, updated_rows: Seq<u64>) -> (nat, nat)
    decreases updates.len(),
{
    if updates.len() == 0 || updated_rows.len() < updates.len() {
        (0, 0)
    } else {
        let n = (updates.len() - 1) as int;
        let (c, s) = applied_totals(updates.drop_last(), updated_rows.take(n));
        if updated_rows[n] > 0 {
            ((c + updated_rows[n]) as nat, (s + updates[n].saved_bytes) as nat)
        } else {
            (c, s)
        }
    }
}

/// Totals a batch of applied rewrites, given how many rows each one changed:
/// a rewrite that changed no row (its event was rewritten meanwhile) saves nothing.
pub fn tally_applied(updates: &[CompactionUpdate], updated_rows: &[u64]) -> (r: AppliedBatch)
    requires
        updated_rows.len() == updates.len(),
        applied_totals(updates@, updated_rows@).0 <= u64::MAX,
        applied_totals(updates@, updated_rows@).1 <= u64::MAX,
    ensures
        r.converted_events == applied_totals(updates@, updated_rows@).0,
        r.saved_bytes == applied_totals(updates@, updated_rows@).1,
        (forall|k: int| 0 <= k < updated_rows.len() ==> updated_rows@[k] <= 1) ==> r.converted_events
            <= updates.len(),
{
    proof {
        if forall|k: int| 0 <= k < updated_rows.len() ==> updated_rows@[k] <= 1 {
            lemma_converted_at_most_updates(updates@, updated_rows@);
        }
    }
    let mut converted: u64 = 0;
    let mut saved: u64 = 0;
    let mut i: usize = 0;
    while i < updates.len()
        invariant
            i <= updates.len() == updated_rows.len(),
            applied_totals(updates@, updated_rows@).0 <= u64::MAX,
            applied_totals(updates@, updated_rows@).1 <= u64::MAX,
            (converted as nat, saved as nat) == applied_totals(
                updates@.take(i as int),
                updated_rows@.take(i as int),
            ),
        decreases updates.len() - i,
    {
        proof {
            assert(updates@.take(i + 1).drop_last() =~= updates@.take(i as int));
            assert(updated_rows@.take(i + 1).take(i as int) =~= updated_rows@.take(i as int));
            lemma_applied_totals_monotone(updates@, updated_rows@, i + 1);
        }
        if updated_rows[i] > 0 {
            converted = converted + updated_rows[i];
            saved = saved + updates[i].saved_bytes;
        }
        i = i + 1;
    }
    proof {
        assert(updates@.take(updates.len() as int) =~= updates@);
        assert(updated_rows@.take(updated_rows.len() as int) =~= updated_rows@);
    }
    AppliedBatch { converted_events: converted, saved_bytes: saved }
}

/// Where each rewrite changed at most one row (an update by the row's key),
/// the batch converted at most as many events as it held rewrites.
pub proof fn lemma_converted_at_most_updates(updates: Seq<CompactionUpdate>, updated_rows: Seq<u64>)
    requires
        updated_rows.len() == updates.len(),
        forall|k: int| 0 <= k < updated_rows.len() ==> updated_rows[k] <= 1,
    ensures
        applied_totals(updates, updated_rows).0 <= updates.len(),
    decreases updates.len(),
{
    if updates.len() > 0 {
        let n = (updates.len() - 1) as int;
        lemma_converted_at_most_updates(updates.drop_last(), updated_rows.take(n));
    }
}

/// Totals over a prefix never exceed the totals over the whole batch.
proof fn lemma_applied_totals_monotone(updates: Seq<CompactionUpdate>, rows: Seq<u64>, m: int)
    requires
        0 <= m <= updates.len(),
        rows.len() == updates.len(),
    ensures
        applied_totals(updates.take(m), rows.take(m)).0 <= applied_totals(updates, rows).0,
        applied_totals(updates.take(m), rows.take(m)).1 <= applied_totals(updates, rows).1,
    decreases updates.len() - m,
{
    if m < updates.len() {
        let n = updates.len() - 1;
        assert(updates.take(m) =~= updates.drop_last().take(m));
        assert(rows.take(m) =~= rows.take(n).take(m));
        lemma_applied_totals_monotone(updates.drop_last(), rows.take(n), m);
    } else {
        assert(updates.take(m) =~= updates);
        assert(rows.take(m) =~= rows);
    }
}

/// Adds a batch to the scan: applied counts when the batch was written,
/// otherwise the savings it would bring.
pub fn record_batch(analysis: &mut RawPayloadAnalysis, updates: &[CompactionUpdate], applied: Option<AppliedBatch>)
    requires
        match applied {
            Some(a) => old(analysis).converted_events + a.converted_events <= u64::MAX
                && old(analysis).estimated_bytes_saved + a.saved_bytes <= u64::MAX,
            None => old(analysis).estimated_bytes_saved + saved_total(
                updates@.map_values(|u: CompactionUpdate| update_view(u)),
            ) <= u64::MAX,
        },
    ensures
        match applied {
            Some(a) => final(analysis).converted_events == old(analysis).converted_events
                + a.converted_events && final(analysis).estimated_bytes_saved == old(
                analysis,
            ).estimated_bytes_saved + a.saved_bytes,
            None => final(analysis).converted_events == old(analysis).converted_events
                && final(analysis).estimated_bytes_saved == old(analysis).estimated_bytes_saved
                + saved_total(updates@.map_values(|u: CompactionUpdate| update_view(u))),
        },
        final(analysis).eligible_events == old(analysis).eligible_events,
        final(analysis).skipped_small_events == old(analysis).skipped_small_events,
        final(analysis).skipped_not_smaller_events == old(analysis).skipped_not_smaller_events,
        final(analysis).skipped_round_trip_failed_events == old(analysis).skipped_round_trip_failed_events,
{
    match applied {
        Some(a) => {
            analysis.converted_events = analysis.converted_events + a.converted_events;
            analysis.estimated_bytes_saved = analysis.estimated_bytes_saved + a.saved_bytes;
        },
        None => {
            let ghost views = updates@.map_values(|u: CompactionUpdate| update_view(u));
            let ghost start = analysis.estimated_bytes_saved;
            let mut i: usize = 0;
            while i < updates.len()
                invariant
                    i <= updates.len(),
                    views == updates@.map_values(|u: CompactionUpdate| update_view(u)),
                    start + saved_total(views) <= u64::MAX,
                    analysis.estimated_bytes_saved == start + saved_total(views.take(i as int)),
                    analysis.converted_events == old(analysis).converted_events,
                    analysis.eligible_events == old(analysis).eligible_events,
                    analysis.skipped_small_events == old(analysis).skipped_small_events,
                    analysis.skipped_not_smaller_events == old(analysis).skipped_not_smaller_events,
                    analysis.skipped_round_trip_failed_events == old(analysis).skipped_round_trip_failed_events,
                    start == old(analysis).estimated_bytes_saved,
                decreases updates.len() - i,
            {
                proof {
                    assert(views.take(i + 1).drop_last() =~= views.take(i as int));
                    lemma_saved_total_monotone(views, i + 1);
                }
                analysis.estimated_bytes_saved = analysis.estimated_bytes_saved + updates[i].saved_bytes;
                i = i + 1;
            }
            proof {
                assert(views.take(updates.len() as int) =~= views);
            }
        },
    }
}

proof fn lemma_saved_total_monotone(v: Seq<(EventKey, Seq<u8>, nat, nat)>, m: int)
    requires
        0 <= m <= v.len(),
    ensures
        saved_total(v.take(m)) <= saved_total(v),
    decreases v.len() - m,
{
    if m < v.len() {
        assert(v.take(m) =~= v.drop_last().take(m));
        lemma_saved_total_monotone(v.drop_last(), m);
    } else {
        assert(v.take(m) =~= v);
    }
}

/// Where the next batch starts: after the last event of this one.
pub fn next_cursor(events: &[RawEvent]) -> (r: Option<EventKey>)
    ensures
        events.len() == 0 ==> r is None,
        events.len() > 0 ==> r == Some(events@.last().key),
{
    if events.len() == 0 {
        None
    } else {
        Some(events[events.len() - 1].key)
    }
}

// ---------------------------------------------------------------------------
// The report
// ---------------------------------------------------------------------------
/// The storage reported after the run: estimated from the eligible events for
/// a dry run, from the converted ones for an apply, unchanged for a vacuum;
/// all zero without diagnostics (except a vacuum, which reports the before counts).
pub open spec fn after_spec(mode: CompactMode, include_diagnostics: bool, before: EventStorageStats, analysis: RawPayloadAnalysis) -> EventStorageStats {
    match mode {
        CompactMode::DryRun => if include_diagnostics {
            estimate_spec(before, analysis.eligible_events, analysis.estimated_bytes_saved)
        } else {
            EventStorageStats { raw_events: 0, zstd_events: 0, unsupported_codec_events: 0, stored_bytes: 0 }
        },
        CompactMode::Apply => if include_diagnostics {
            estimate_spec(before, analysis.converted_events, analysis.estimated_bytes_saved)
        } else {
            EventStorageStats { raw_events: 0, zstd_events: 0, unsupported_codec_events: 0, stored_bytes: 0 }
        },
        CompactMode::Vacuum => before,
    }
}

pub fn storage_after(
    mode: CompactMode,
    include_diagnostics: bool,
    before: &EventStorageStats,
    analysis: &RawPayloadAnalysis,
) -> (r: EventStorageStats)
    requires
        before.zstd_events + analysis.eligible_events <= u64::MAX,
        before.zstd_events + analysis.converted_events <= u64::MAX,
    ensures
        r == after_spec(mode, include_diagnostics, *before, *analysis),
{
    match mode {
        CompactMode::DryRun => if include_diagnostics {
            compacted_storage_estimate(before, analysis.eligible_events, analysis)
        } else {
            EventStorageStats { raw_events: 0, zstd_events: 0, unsupported_codec_events: 0, stored_bytes: 0 }
        },
        CompactMode::Apply => if include_diagnostics {
            compacted_storage_estimate(before, analysis.converted_events, analysis)
        } else {
            EventStorageStats { raw_events: 0, zstd_events: 0, unsupported_codec_events: 0, stored_bytes: 0 }
        },
        CompactMode::Vacuum => *before,
    }
}

/// Whether a run measures free SQLite pages after it ran: with diagnostics,
/// or whenever it changed the database.
pub fn measures_reclaimable_after(mode: CompactMode, include_diagnostics: bool) -> (r: bool)
    ensures
        r == (include_diagnostics || mode != CompactMode::DryRun),
{
    include_diagnostics || mode != CompactMode::DryRun
}

/// Whether a run takes the data lock: only runs that change the database.
pub fn takes_data_lock(mode: CompactMode) -> (r: bool)
    ensures
        r == (mode != CompactMode::DryRun),
{
    mode != CompactMode::DryRun
}

/// Assembles the report of a run from its measurements.
pub fn compact_report(
    db_path: &str,
    options: CompactOptions,
    before: &EventStorageStats,
    after: &EventStorageStats,
    analysis: &RawPayloadAnalysis,
    sqlite_reclaimable_bytes_before: u64,
    sqlite_reclaimable_bytes: u64,
    unresolved_ingest_errors: u64,
) -> (r: CompactReport)
    requires
        analysis.skipped_small_events + analysis.skipped_not_smaller_events
            + analysis.skipped_round_trip_failed_events <= u64::MAX,
    ensures
        r.db_path@ == db_path@,
        r.mode == options.mode,
        r.batch_size == options.batch_size,
        r.raw_events_before == before.raw_events,
        r.zstd_events_before == before.zstd_events,
        r.raw_events_after == after.raw_events,
        r.zstd_events_after == after.zstd_events,
        r.unsupported_codec_events == before.unsupported_codec_events,
        r.eligible_raw_events == analysis.eligible_events,
        r.converted_events == analysis.converted_events,
        r.skipped_raw_events == analysis.skipped_small_events + analysis.skipped_not_smaller_events
            + analysis.skipped_round_trip_failed_events,
        r.skipped_small_events == analysis.skipped_small_events,
        r.skipped_not_smaller_events == analysis.skipped_not_smaller_events,
        r.skipped_round_trip_failed_events == analysis.skipped_round_trip_failed_events,
        r.stored_bytes_before == before.stored_bytes,
        r.stored_bytes_after == after.stored_bytes,
        r.estimated_bytes_saved == analysis.estimated_bytes_saved,
        r.sqlite_reclaimable_bytes_before == sqlite_reclaimable_bytes_before,
        r.sqlite_reclaimable_bytes == sqlite_reclaimable_bytes,
        r.unresolved_ingest_errors == unresolved_ingest_errors,
{
    CompactReport {
        db_path: crate::text::owned(db_path),
        mode: options.mode,
        batch_size: options.batch_size,
        raw_events_before: before.raw_events,
        zstd_events_before: before.zstd_events,
        raw_events_after: after.raw_events,
        zstd_events_after: after.zstd_events,
        unsupported_codec_events: before.unsupported_codec_events,
        eligible_raw_events: analysis.eligible_events,
        converted_events: analysis.converted_events,
        skipped_raw_events: analysis.skipped_events(),
        skipped_small_events: analysis.skipped_small_events,
        skipped_not_smaller_events: analysis.skipped_not_smaller_events,
        skipped_round_trip_failed_events: analysis.skipped_round_trip_failed_events,
        stored_bytes_before: before.stored_bytes,
        stored_bytes_after: after.stored_bytes,
        estimated_bytes_saved: analysis.estimated_bytes_saved,
        sqlite_reclaimable_bytes_before,
        sqlite_reclaimable_bytes,
        unresolved_ingest_errors,
    }
}

} // verus!

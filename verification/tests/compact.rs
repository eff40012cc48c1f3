use jottrace::compact::{
    compact_raw_payload, compacted_storage_estimate, plan_batch, tally_applied,
    validate_compact_options, CompactMode, CompactOptions, CompactionUpdate, EventKey,
    EventStorageStats, RawEvent, RawPayloadAnalysis, RawPayloadPlan,
};

#[test]
fn batch_size_must_be_in_range() {
    assert!(validate_compact_options(CompactOptions { mode: CompactMode::Apply, batch_size: 1 }).is_ok());
    let err = validate_compact_options(CompactOptions { mode: CompactMode::Apply, batch_size: 0 }).unwrap_err();
    assert_eq!(err.to_message(), "compact batch size must be between 1 and 10000; got 0");
    assert!(validate_compact_options(CompactOptions { mode: CompactMode::DryRun, batch_size: 10001 }).is_err());
    assert_eq!(CompactOptions::default(), CompactOptions { mode: CompactMode::DryRun, batch_size: 1000 });
}

#[test]
fn compressible_payload_is_planned_for_compaction() {
    let payload = vec![b'x'; 4096];
    match compact_raw_payload(&payload).expect("plan") {
        RawPayloadPlan::Compact { payload: compressed, payload_size, saved_bytes } => {
            assert_eq!(payload_size, 4096);
            assert_eq!(saved_bytes as usize, 4096 - compressed.len());
            assert_eq!(zstd::stream::decode_all(&compressed[..]).expect("decode"), payload);
        }
        other => panic!("unexpected plan: {other:?}"),
    }
    assert_eq!(compact_raw_payload(b"short").expect("plan"), RawPayloadPlan::SkipNotSmaller);
}

#[test]
fn a_batch_counts_eligible_and_skipped_events() {
    let key = |seq| EventKey { session_id: 1, generation: 0, seq };
    let events = vec![
        RawEvent { key: key(0), payload: vec![b'a'; 2048] },
        RawEvent { key: key(1), payload: b"tiny".to_vec() },
    ];
    let mut analysis = RawPayloadAnalysis::starting_with_small(3);
    let updates = plan_batch(&events, &mut analysis).expect("batch");
    assert_eq!(updates.len(), 1);
    assert_eq!(updates[0].key, key(0));
    assert_eq!(analysis.eligible_events, 1);
    assert_eq!(analysis.skipped_not_smaller_events, 1);
    assert_eq!(analysis.skipped_small_events, 3);
    assert_eq!(analysis.skipped_events(), 4);
}

#[test]
fn applied_rows_and_estimates() {
    let update = |saved| CompactionUpdate {
        key: EventKey { session_id: 1, generation: 0, seq: 0 },
        payload: Vec::new(),
        payload_size: 0,
        saved_bytes: saved,
    };
    let applied = tally_applied(&[update(10), update(20)], &[1, 0]);
    assert_eq!(applied.converted_events, 1);
    assert_eq!(applied.saved_bytes, 10);
    let before = EventStorageStats { raw_events: 5, zstd_events: 2, unsupported_codec_events: 1, stored_bytes: 100 };
    let analysis = RawPayloadAnalysis { estimated_bytes_saved: 150, ..RawPayloadAnalysis::default() };
    let after = compacted_storage_estimate(&before, 7, &analysis);
    assert_eq!(after, EventStorageStats { raw_events: 0, zstd_events: 9, unsupported_codec_events: 1, stored_bytes: 0 });
}

#[test]
fn updates_by_key_convert_at_most_one_event_each() {
    let update = |saved| CompactionUpdate {
        key: EventKey { session_id: 1, generation: 0, seq: 0 },
        payload: Vec::new(),
        payload_size: 0,
        saved_bytes: saved,
    };
    let updates = [update(10), update(20), update(30)];
    let applied = tally_applied(&updates, &[1, 1, 0]);
    assert_eq!(applied.converted_events, 2);
    assert!(applied.converted_events <= updates.len() as u64);
    assert_eq!(applied.saved_bytes, 30);
}

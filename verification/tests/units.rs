//! Unit tests for the buffer, the staging codec, table-name validation,
//! the error taxonomy and the flush state machine.

use spoilers::buffer::Buffer;
use spoilers::codec::decode_batch;
use spoilers::codec::encode_batch;
use spoilers::ingest::TableName;
use spoilers::ingest::is_valid_table_name;
use spoilers::ingest::prepare_batch;
use spoilers::models::ListEntry;
use spoilers::pipeline::DurableStoreModel;
use spoilers::scheduler::FlushEvent;
use spoilers::scheduler::FlushPhase;
use spoilers::scheduler::FlushSchedule;
use spoilers::storage::StorageError;

#[test]
fn append_keeps_fifo_order_and_reports_depth() {
    let mut b = Buffer::new(b"events".to_vec());
    assert_eq!(b.depth(), 0);
    let p = b.append(b"a".to_vec());
    assert_eq!(p.payload, b"a".to_vec());
    b.append(b"b".to_vec());
    b.append(b"c".to_vec());
    assert_eq!(b.depth(), 3);
    assert_eq!(b.name(), &b"events".to_vec());
    assert_eq!(
        b.snapshot(),
        vec![b"a".to_vec(), b"b".to_vec(), b"c".to_vec()]
    );
    assert_eq!(b.depth(), 3, "snapshot must not mutate");

    let drained = b.drain_and_clear();
    assert_eq!(drained, vec![b"a".to_vec(), b"b".to_vec(), b"c".to_vec()]);
    assert_eq!(b.depth(), 0);
}

#[test]
fn clear_snapshot_never_removes_a_late_append() {
    // An append lands between the snapshot and the clear: the cleared
    // range covers only the snapshot, so the late record survives.
    let mut b = Buffer::new(b"events".to_vec());
    b.append(b"x".to_vec());
    let snapshot = b.snapshot();
    b.append(b"y".to_vec());

    b.clear_snapshot(snapshot.len());
    assert_eq!(snapshot, vec![b"x".to_vec()]);
    assert_eq!(b.snapshot(), vec![b"y".to_vec()]);
}

#[test]
fn requeue_front_restores_a_failed_batch_ahead_of_new_appends() {
    let mut b = Buffer::new(b"events".to_vec());
    b.append(b"a".to_vec());
    b.append(b"b".to_vec());
    let batch = b.drain_and_clear();
    b.append(b"c".to_vec());

    b.requeue_front(batch);
    assert_eq!(
        b.snapshot(),
        vec![b"a".to_vec(), b"b".to_vec(), b"c".to_vec()]
    );
}

#[test]
fn codec_round_trips_records_with_delimiters_and_escapes() {
    let batch = vec![
        b"plain".to_vec(),
        b"with\nnewline".to_vec(),
        b"with\\backslash".to_vec(),
        b"".to_vec(),
        vec![0, 255, 10, 92, 110],
    ];
    let payload = encode_batch(&batch);
    assert_eq!(decode_batch(&payload), Some(batch));
}

#[test]
fn codec_produces_the_documented_bytes() {
    assert_eq!(encode_batch(&vec![]), Vec::<u8>::new());
    assert_eq!(encode_batch(&vec![b"ab".to_vec()]), b"ab\n".to_vec());
    assert_eq!(encode_batch(&vec![b"a\nb".to_vec()]), b"a\\nb\n".to_vec());
    assert_eq!(
        encode_batch(&vec![b"a\\b".to_vec()]),
        b"a\\\\b\n".to_vec()
    );
    assert_eq!(
        encode_batch(&vec![b"a".to_vec(), b"b".to_vec()]),
        b"a\nb\n".to_vec()
    );
}

#[test]
fn decode_rejects_bytes_no_batch_encodes_to() {
    // An unterminated final row.
    assert_eq!(decode_batch(&b"ab".to_vec()), None);
    // A dangling escape at the end of input.
    assert_eq!(decode_batch(&b"a\\".to_vec()), None);
    // An unknown escape pair.
    assert_eq!(decode_batch(&b"a\\xb\n".to_vec()), None);
    // The empty payload is the empty batch.
    assert_eq!(decode_batch(&Vec::new()), Some(vec![]));
}

#[test]
fn table_names_are_validated_against_the_allow_list() {
    assert!(is_valid_table_name(&b"events".to_vec()));
    assert!(is_valid_table_name(&b"_log_2024".to_vec()));
    assert!(!is_valid_table_name(&b"".to_vec()));
    assert!(!is_valid_table_name(&b"9lives".to_vec()));
    assert!(!is_valid_table_name(&b"Events".to_vec()));
    assert!(!is_valid_table_name(&b"ev ents".to_vec()));
    assert!(!is_valid_table_name(&b"t; drop table t".to_vec()));
    assert!(!is_valid_table_name(&b"t'--".to_vec()));

    assert!(TableName::parse(b"events".to_vec()).is_ok());
    assert_eq!(
        TableName::parse(b"t; drop table t".to_vec()).err(),
        Some(StorageError::InvalidTableName)
    );
}

#[test]
fn prepared_batches_carry_the_address_and_the_encoded_payload() {
    let table = TableName::parse(b"events".to_vec()).expect("valid");
    let records = vec![b"a".to_vec(), b"b".to_vec()];
    let prepared = prepare_batch(&table, 7, &records);
    assert_eq!(prepared.address.table, b"events".to_vec());
    assert_eq!(prepared.address.token, 7);
    assert_eq!(prepared.payload, b"a\nb\n".to_vec());
}

#[test]
fn point_inserts_assign_consecutive_identities() {
    let mut store = DurableStoreModel::new();
    let a = store.insert(b"a".to_vec());
    let b = store.insert(b"b".to_vec());
    assert_eq!((a.id, a.payload), (1, b"a".to_vec()));
    assert_eq!((b.id, b.payload), (2, b"b".to_vec()));
    assert_eq!(store.row_count(), 2);
    assert_eq!(store.bulk_loads, 0);
}

#[test]
fn list_entries_report_their_tag() {
    assert!(ListEntry::Pending(b"x".to_vec()).is_pending());
    assert!(!ListEntry::Persisted(1, b"x".to_vec()).is_pending());
}

#[test]
fn ingestion_failures_are_retryable_and_rejections_are_not() {
    assert!(StorageError::StagingUploadError.is_retryable());
    assert!(StorageError::BulkLoadError.is_retryable());
    assert!(StorageError::ServiceUnavailable.is_retryable());
    assert!(!StorageError::BufferUnavailable.is_retryable());
    assert!(!StorageError::DurableStoreUnavailable.is_retryable());
    assert!(!StorageError::InvalidTableName.is_retryable());
}

#[test]
fn flush_schedule_walks_the_tick_state_machine() {
    let mut s = FlushSchedule::new(500);
    assert_eq!(s.period_ms, 500);
    assert_eq!(s.phase, FlushPhase::Idle);

    // A successful tick.
    s.on_event(FlushEvent::TickDue);
    assert_eq!(s.phase, FlushPhase::Draining);
    s.on_event(FlushEvent::DrainedBatch);
    assert_eq!(s.phase, FlushPhase::Ingesting);
    s.on_event(FlushEvent::IngestSucceeded);
    assert_eq!(s.phase, FlushPhase::Committed);
    s.on_event(FlushEvent::Settled);
    assert_eq!(s.phase, FlushPhase::Idle);

    // An empty tick is a no-op.
    s.on_event(FlushEvent::TickDue);
    s.on_event(FlushEvent::DrainedEmpty);
    assert_eq!(s.phase, FlushPhase::Idle);

    // A failed tick requeues before going idle.
    s.on_event(FlushEvent::TickDue);
    s.on_event(FlushEvent::DrainedBatch);
    s.on_event(FlushEvent::IngestFailed);
    assert_eq!(s.phase, FlushPhase::FailedRequeued);
    s.on_event(FlushEvent::Settled);
    assert_eq!(s.phase, FlushPhase::Idle);
}

#[test]
fn flush_schedule_ignores_stray_events() {
    let mut s = FlushSchedule::new(500);
    s.on_event(FlushEvent::IngestSucceeded);
    assert_eq!(s.phase, FlushPhase::Idle);
    s.on_event(FlushEvent::TickDue);
    s.on_event(FlushEvent::TickDue);
    assert_eq!(s.phase, FlushPhase::Draining);
}

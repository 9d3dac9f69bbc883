//! End-to-end scenarios against the buffered pipeline.

use spoilers::ingest::TableName;
use spoilers::models::ListEntry;
use spoilers::pipeline::BufferedResource;
use spoilers::storage::StorageError;

fn system(table: &str) -> BufferedResource {
    let table = TableName::parse(table.as_bytes().to_vec()).expect("valid table name");
    BufferedResource::new(table)
}

fn pending_payloads(entries: &[ListEntry]) -> Vec<Vec<u8>> {
    entries
        .iter()
        .filter_map(|e| match e {
            ListEntry::Pending(p) => Some(p.clone()),
            ListEntry::Persisted(_, _) => None,
        })
        .collect()
}

fn persisted_rows(entries: &[ListEntry]) -> Vec<(u64, Vec<u8>)> {
    entries
        .iter()
        .filter_map(|e| match e {
            ListEntry::Pending(_) => None,
            ListEntry::Persisted(id, p) => Some((*id, p.clone())),
        })
        .collect()
}

#[test]
fn create_on_empty_system_lists_one_pending_record() {
    let mut sys = system("events");
    let created = sys.create(b"x".to_vec()).expect("buffer available");
    assert_eq!(created.payload, b"x".to_vec());

    let page = sys.list(10, true);
    assert!(page.complete);
    assert_eq!(page.entries.len(), 1);
    assert_eq!(pending_payloads(&page.entries), vec![b"x".to_vec()]);
    assert_eq!(persisted_rows(&page.entries), vec![]);
}

#[test]
fn successful_flush_promotes_the_record_to_persisted() {
    let mut sys = system("events");
    sys.create(b"x".to_vec()).expect("buffer available");

    let flushed = sys.flush_tick(true, true);
    assert_eq!(flushed, Ok(1));

    let page = sys.list(10, true);
    assert!(page.complete);
    assert_eq!(page.entries.len(), 1);
    assert_eq!(pending_payloads(&page.entries), Vec::<Vec<u8>>::new());
    assert_eq!(persisted_rows(&page.entries), vec![(1u64, b"x".to_vec())]);
    assert_eq!(sys.pending_depth(), 0);
}

#[test]
fn upload_failure_keeps_the_record_pending_until_the_next_tick() {
    let mut sys = system("events");
    sys.create(b"x".to_vec()).expect("buffer available");

    let failed = sys.flush_tick(false, true);
    assert_eq!(failed, Err(StorageError::StagingUploadError));

    // The record is still read as pending and the store is untouched.
    let page = sys.list(10, true);
    assert_eq!(pending_payloads(&page.entries), vec![b"x".to_vec()]);
    assert_eq!(persisted_rows(&page.entries), vec![]);
    assert_eq!(sys.store.row_count(), 0);
    assert_eq!(sys.staging.object_count(), 0);
    assert_eq!(sys.pending_depth(), 1);

    // The next successful tick completes the flush.
    let flushed = sys.flush_tick(true, true);
    assert_eq!(flushed, Ok(1));
    let page = sys.list(10, true);
    assert_eq!(pending_payloads(&page.entries), Vec::<Vec<u8>>::new());
    assert_eq!(persisted_rows(&page.entries), vec![(1u64, b"x".to_vec())]);
}

#[test]
fn load_failure_keeps_the_staged_object_and_the_batch() {
    let mut sys = system("events");
    sys.create(b"x".to_vec()).expect("buffer available");

    let failed = sys.flush_tick(true, false);
    assert_eq!(failed, Err(StorageError::BulkLoadError));

    // Nothing was loaded, the batch is whole, and the staged object is
    // there to be retried against.
    assert_eq!(sys.store.row_count(), 0);
    assert_eq!(sys.pending_depth(), 1);
    assert_eq!(sys.staging.object_count(), 1);

    let flushed = sys.flush_tick(true, true);
    assert_eq!(flushed, Ok(1));
    assert_eq!(sys.store.row_count(), 1);
    assert_eq!(sys.pending_depth(), 0);
}

#[test]
fn two_creates_across_a_flush_lose_neither_record() {
    let mut sys = system("events");
    sys.create(b"x".to_vec()).expect("buffer available");
    assert_eq!(sys.flush_tick(true, true), Ok(1));

    // The second create lands after the first flush's snapshot.
    sys.create(b"y".to_vec()).expect("buffer available");
    let page = sys.list(10, true);
    assert_eq!(persisted_rows(&page.entries), vec![(1u64, b"x".to_vec())]);
    assert_eq!(pending_payloads(&page.entries), vec![b"y".to_vec()]);

    assert_eq!(sys.flush_tick(true, true), Ok(1));
    let page = sys.list(10, true);
    assert_eq!(
        persisted_rows(&page.entries),
        vec![(1u64, b"x".to_vec()), (2u64, b"y".to_vec())]
    );
    assert_eq!(pending_payloads(&page.entries), Vec::<Vec<u8>>::new());
}

#[test]
fn fifty_record_batch_stages_one_object_and_loads_once() {
    let mut sys = system("events");
    for i in 0..50u8 {
        sys.create(vec![i]).expect("buffer available");
    }
    assert_eq!(sys.pending_depth(), 50);

    let flushed = sys.flush_tick(true, true);
    assert_eq!(flushed, Ok(50));

    assert_eq!(sys.staging.object_count(), 1);
    assert_eq!(sys.store.bulk_loads, 1);
    assert_eq!(sys.store.row_count(), 50);
    assert_eq!(sys.pending_depth(), 0);

    // Rows carry consecutive identities in batch order.
    let page = sys.list(100, true);
    let rows = persisted_rows(&page.entries);
    assert_eq!(rows.len(), 50);
    for (i, (id, payload)) in rows.iter().enumerate() {
        assert_eq!(*id, i as u64 + 1);
        assert_eq!(payload, &vec![i as u8]);
    }
}

#[test]
fn process_stages_once_and_loads_without_touching_the_buffer() {
    let mut sys = system("events");
    sys.create(b"untouched".to_vec()).expect("buffer available");

    let batch = vec![b"a".to_vec(), b"b".to_vec()];
    let loaded = sys.process(&batch, true, true);
    assert_eq!(loaded, Ok(2));
    assert_eq!(sys.staging.object_count(), 1);
    assert_eq!(sys.store.bulk_loads, 1);
    assert_eq!(sys.store.row_count(), 2);
    assert_eq!(sys.pending_depth(), 1, "process must not touch the buffer");
}

#[test]
fn flushing_an_empty_buffer_is_a_successful_no_op() {
    let mut sys = system("events");
    assert_eq!(sys.flush_tick(true, true), Ok(0));
    assert_eq!(sys.store.row_count(), 0);
    assert_eq!(sys.staging.object_count(), 0);
    assert_eq!(sys.pending_depth(), 0);
}

#[test]
fn partial_read_serves_pending_entries_when_the_durable_page_fails() {
    let mut sys = system("events");
    sys.create(b"x".to_vec()).expect("buffer available");
    assert_eq!(sys.flush_tick(true, true), Ok(1));
    sys.create(b"y".to_vec()).expect("buffer available");

    let page = sys.list(10, false);
    assert!(!page.complete);
    assert_eq!(persisted_rows(&page.entries), vec![]);
    assert_eq!(pending_payloads(&page.entries), vec![b"y".to_vec()]);
}

#[test]
fn list_respects_the_page_limit_but_always_serves_pending() {
    let mut sys = system("events");
    for i in 0..5u8 {
        sys.create(vec![i]).expect("buffer available");
    }
    assert_eq!(sys.flush_tick(true, true), Ok(5));
    sys.create(b"p".to_vec()).expect("buffer available");

    let page = sys.list(3, true);
    assert_eq!(persisted_rows(&page.entries).len(), 3);
    assert_eq!(pending_payloads(&page.entries), vec![b"p".to_vec()]);
}

#[test]
fn upload_failure_stages_nothing_whatever_the_load_would_do() {
    let mut sys = system("events");
    sys.create(b"x".to_vec()).expect("buffer available");

    let failed = sys.flush_tick(false, false);
    assert_eq!(failed, Err(StorageError::StagingUploadError));
    assert_eq!(sys.staging.object_count(), 0);
    assert_eq!(sys.store.row_count(), 0);
    assert_eq!(sys.pending_depth(), 1);
}

#[test]
fn payloads_survive_the_staged_round_trip_byte_for_byte() {
    // Records containing the row separator and the escape byte round-trip
    // through the staging payload and the bulk load unchanged.
    let nasty = vec![
        b"line\none".to_vec(),
        b"back\\slash".to_vec(),
        vec![0u8, 10, 92, 110, 255],
    ];
    let mut sys = system("events");
    for payload in &nasty {
        sys.create(payload.clone()).expect("buffer available");
    }
    assert_eq!(sys.flush_tick(true, true), Ok(3));

    let page = sys.list(10, true);
    let rows = persisted_rows(&page.entries);
    assert_eq!(rows.len(), 3);
    for (i, payload) in nasty.iter().enumerate() {
        assert_eq!(rows[i].0, i as u64 + 1);
        assert_eq!(&rows[i].1, payload);
    }
}

#[test]
fn staged_objects_of_successive_flushes_have_distinct_tokens() {
    let mut sys = system("events");
    sys.create(b"a".to_vec()).expect("buffer available");
    assert_eq!(sys.flush_tick(true, true), Ok(1));
    sys.create(b"b".to_vec()).expect("buffer available");
    assert_eq!(sys.flush_tick(true, true), Ok(1));

    assert_eq!(sys.staging.object_count(), 2);
    let first = &sys.staging.objects[0].address;
    let second = &sys.staging.objects[1].address;
    assert_eq!(first.table, b"events".to_vec());
    assert_eq!(second.table, b"events".to_vec());
    assert_ne!(first.token, second.token);
}

//! The buffered pipeline end to end: in-memory reference models of the two
//! collaborators (the durable store and the staging object store) and the
//! per-resource backend that composes them with the buffer.
//!
//! The models give the collaborators exact contracts — a bounded page read,
//! an append-only object put, and an all-or-nothing bulk-load command —
//! so the pipeline's accounting laws are stated and proved against them,
//! and the scenario tests run against the same semantics.  A deployment
//! replaces the models with real clients driven by the same scheduler
//! decisions; the flush outcomes enter [`BufferedResource::flush_tick`] as
//! arguments for exactly that reason.

use vstd::prelude::*;

use crate::buffer::Buffer;
use crate::codec::decode_batch;
use crate::codec::decoded;
use crate::codec::encoded;
use crate::codec::lemma_decode_encode;
use crate::facade::ListPage;
use crate::facade::entry_views;
use crate::facade::lemma_read_completeness;
use crate::facade::merge_page;
use crate::facade::merged;
use crate::facade::pending_entries;
use crate::facade::persisted_entries;
use crate::facade::row_views;
use crate::ingest::StagedAddress;
use crate::ingest::TableName;
use crate::ingest::prepare_batch;
use crate::models::EntryView;
use crate::models::PendingRecord;
use crate::models::PersistedRecord;
use crate::rows::clone_row;
use crate::rows::views_of;
use crate::storage::StorageError;

verus! {

/// The rows a loaded batch adds: consecutive identities from `first_id`,
/// one row per record, in batch order.
pub open spec fn loaded_rows(rs: Seq<Seq<u8>>, first_id: u64) -> Seq<(u64, Seq<u8>)> {
    Seq::new(rs.len(), |i: int| ((first_id + i) as u64, rs[i]))
}

/// A bounded page: the first `limit` rows, or all of them if fewer.
pub open spec fn page_of(rows: Seq<(u64, Seq<u8>)>, limit: int) -> Seq<(u64, Seq<u8>)> {
    if limit <= rows.len() {
        rows.take(limit)
    } else {
        rows
    }
}

proof fn lemma_row_views_push(s: Seq<PersistedRecord>, p: PersistedRecord)
    ensures
        row_views(s.push(p)) == row_views(s).push(p@),
{
    assert(row_views(s).len() == s.len());
    assert(row_views(s.push(p)).len() == s.len() + 1);
    assert forall|k: int| 0 <= k < s.len() + 1 implies row_views(s.push(p))[k] == row_views(
        s,
    ).push(p@)[k] by {
        assert(row_views(s.push(p))[k] == s.push(p)[k]@);
        if k < s.len() {
            assert(row_views(s)[k] == s[k]@);
        }
    }
    assert(row_views(s.push(p)) =~= row_views(s).push(p@));
}

/// Reference model of the durable analytical store: rows with assigned
/// identities, read through bounded pages, written through point inserts
/// or an all-or-nothing bulk-load command.
pub struct DurableStoreModel {
    /// Every durably loaded row, in load order.
    pub rows: Vec<PersistedRecord>,
    /// The next identity the store will assign.
    pub next_id: u64,
    /// How many bulk-load commands have run.
    pub bulk_loads: u64,
}

impl DurableStoreModel {
    /// The store's contents.
    pub open spec fn rows_view(&self) -> Seq<(u64, Seq<u8>)> {
        row_views(self.rows@)
    }

    /// An empty store; identities start at one.
    pub fn new() -> (s: DurableStoreModel)
        ensures
            s.rows_view() == Seq::<(u64, Seq<u8>)>::empty(),
            s.rows@.len() == 0,
            s.next_id == 1,
            s.bulk_loads == 0,
    {
        let s = DurableStoreModel { rows: Vec::new(), next_id: 1, bulk_loads: 0 };
        proof {
            assert(s.rows_view() =~= Seq::<(u64, Seq<u8>)>::empty());
        }
        s
    }

    /// How many rows the store holds.
    pub fn row_count(&self) -> (n: usize)
        ensures
            n == self.rows_view().len(),
    {
        proof {
            assert(self.rows_view().len() == self.rows@.len());
        }
        self.rows.len()
    }

    /// A point insert: one row, loaded durably with the next identity.
    /// The non-buffered write path uses this; the buffered path reaches
    /// the store only through [`DurableStoreModel::bulk_load`].
    pub fn insert(&mut self, payload: Vec<u8>) -> (p: PersistedRecord)
        requires
            old(self).next_id < u64::MAX,
            old(self).rows@.len() < usize::MAX,
        ensures
            p@ == (old(self).next_id, payload@),
            final(self).rows_view() == old(self).rows_view().push((old(self).next_id, payload@)),
            final(self).next_id == old(self).next_id + 1,
            final(self).bulk_loads == old(self).bulk_loads,
    {
        let p = PersistedRecord { id: self.next_id, payload };
        let copy = PersistedRecord { id: p.id, payload: clone_row(&p.payload) };
        proof {
            lemma_row_views_push(self.rows@, copy);
        }
        self.rows.push(copy);
        self.next_id = self.next_id + 1;
        p
    }

    /// A bounded page read: the first `limit` rows.
    pub fn page(&self, limit: usize) -> (p: Vec<PersistedRecord>)
        ensures
            row_views(p@) == page_of(self.rows_view(), limit as int),
    {
        let n = if limit < self.rows.len() {
            limit
        } else {
            self.rows.len()
        };
        let mut p: Vec<PersistedRecord> = Vec::new();
        proof {
            assert(self.rows_view().len() == self.rows@.len());
            assert(row_views(p@) =~= self.rows_view().take(0));
        }
        let mut i: usize = 0;
        while i < n
            invariant
                i <= n <= self.rows@.len(),
                row_views(p@) == self.rows_view().take(i as int),
                self.rows_view().len() == self.rows@.len(),
            decreases n - i,
        {
            let rec = &self.rows[i];
            let copy = PersistedRecord { id: rec.id, payload: clone_row(&rec.payload) };
            proof {
                lemma_row_views_push(p@, copy);
                assert(self.rows_view().take(i as int).push(self.rows@[i as int]@)
                    =~= self.rows_view().take(i + 1));
            }
            p.push(copy);
            i = i + 1;
        }
        proof {
            if limit >= self.rows@.len() {
                assert(self.rows_view().take(self.rows@.len() as int) =~= self.rows_view());
            }
        }
        p
    }

    /// The bulk-load command: parses the staged payload as the staging row
    /// format and loads every row or, if the payload is not a valid
    /// encoding, none.  Success reports exactly the number of rows loaded.
    pub fn bulk_load(&mut self, payload: &Vec<u8>) -> (r: Result<usize, StorageError>)
        requires
            decoded(payload@) matches Some(rs) ==> {
                &&& old(self).next_id + rs.len() <= u64::MAX
                &&& old(self).rows@.len() + rs.len() <= usize::MAX
                &&& old(self).bulk_loads < u64::MAX
            },
        ensures
            match r {
                Ok(n) => {
                    &&& decoded(payload@) matches Some(rs)
                    &&& n == rs.len()
                    &&& final(self).rows_view() == old(self).rows_view() + loaded_rows(
                        rs,
                        old(self).next_id,
                    )
                    &&& final(self).next_id == old(self).next_id + n
                    &&& final(self).bulk_loads == old(self).bulk_loads + 1
                },
                Err(e) => {
                    &&& e == StorageError::BulkLoadError
                    &&& decoded(payload@) is None
                    &&& *final(self) == *old(self)
                },
            },
    {
        match decode_batch(payload) {
            None => Err(StorageError::BulkLoadError),
            Some(batch) => {
                let ghost rs = decoded(payload@)->Some_0;
                let ghost first_id = self.next_id;
                let ghost rows0 = self.rows_view();
                proof {
                    assert(rs == views_of(batch@));
                    assert(rs.len() == batch@.len());
                    assert(row_views(self.rows@).len() == self.rows@.len());
                }
                let n = batch.len();
                let mut i: usize = 0;
                while i < n
                    invariant
                        i <= n == batch@.len(),
                        rs == views_of(batch@),
                        rs.len() == batch@.len(),
                        first_id + n <= u64::MAX,
                        self.rows@.len() == rows0.len() + i,
                        rows0.len() + n <= usize::MAX,
                        self.next_id == first_id + i,
                        self.rows_view() == rows0 + loaded_rows(rs.take(i as int), first_id),
                        self.bulk_loads == old(self).bulk_loads,
                        rows0.len() == self.rows@.len() - i,
                    decreases n - i,
                {
                    let rec = PersistedRecord {
                        id: self.next_id,
                        payload: clone_row(&batch[i]),
                    };
                    proof {
                        lemma_row_views_push(self.rows@, rec);
                        assert((rows0 + loaded_rows(rs.take(i as int), first_id)).push(
                            ((first_id + i) as u64, rs[i as int]),
                        ) =~= rows0 + loaded_rows(rs.take(i + 1), first_id));
                    }
                    self.rows.push(rec);
                    self.next_id = self.next_id + 1;
                    i = i + 1;
                }
                proof {
                    assert(rs.take(rs.len() as int) =~= rs);
                }
                self.bulk_loads = self.bulk_loads + 1;
                Ok(n)
            },
        }
    }
}

/// One staged object: the address the batch was uploaded under and the
/// payload that was uploaded.
pub struct StagedObject {
    pub address: StagedAddress,
    pub payload: Vec<u8>,
}

impl View for StagedObject {
    type V = ((Seq<u8>, u64), Seq<u8>);

    open spec fn view(&self) -> ((Seq<u8>, u64), Seq<u8>) {
        (self.address@, self.payload@)
    }
}

/// Staged objects as (address, payload) pairs, in upload order.
pub open spec fn object_views(objects: Seq<StagedObject>) -> Seq<((Seq<u8>, u64), Seq<u8>)> {
    objects.map_values(|o: StagedObject| o@)
}

/// Reference model of the staging object store: an append-only set of
/// addressed objects.  A put never clobbers an earlier object because
/// staged addresses carry a never-reused batch token.
pub struct StagingStoreModel {
    /// Every object ever staged, in upload order.
    pub objects: Vec<StagedObject>,
}

impl StagingStoreModel {
    /// The store's contents.
    pub open spec fn objects_view(&self) -> Seq<((Seq<u8>, u64), Seq<u8>)> {
        object_views(self.objects@)
    }

    /// An empty staging store.
    pub fn new() -> (s: StagingStoreModel)
        ensures
            s.objects_view() == Seq::<((Seq<u8>, u64), Seq<u8>)>::empty(),
            s.objects@.len() == 0,
    {
        let s = StagingStoreModel { objects: Vec::new() };
        proof {
            assert(s.objects_view() =~= Seq::<((Seq<u8>, u64), Seq<u8>)>::empty());
        }
        s
    }

    /// How many objects have been staged.
    pub fn object_count(&self) -> (n: usize)
        ensures
            n == self.objects_view().len(),
    {
        proof {
            assert(self.objects_view().len() == self.objects@.len());
        }
        self.objects.len()
    }

    /// Uploads one object; returns its position.
    pub fn put(&mut self, object: StagedObject) -> (idx: usize)
        ensures
            final(self).objects_view() == old(self).objects_view().push(object@),
            idx == old(self).objects_view().len(),
            final(self).objects@.len() == old(self).objects@.len() + 1,
    {
        proof {
            assert(self.objects_view().len() == self.objects@.len());
            assert(object_views(self.objects@.push(object)) =~= object_views(
                self.objects@,
            ).push(object@));
        }
        let idx = self.objects.len();
        self.objects.push(object);
        idx
    }

    /// Reads back the payload of one staged object.
    pub fn payload_at(&self, idx: usize) -> (p: &Vec<u8>)
        requires
            idx < self.objects@.len(),
        ensures
            p@ == self.objects_view()[idx as int].1,
    {
        proof {
            assert(self.objects_view()[idx as int] == self.objects@[idx as int]@);
        }
        &self.objects[idx].payload
    }
}

/// One resource's buffered backend: the write-behind buffer in front of
/// the durable store, with the staging store between them at flush time.
///
/// `create` appends and acknowledges immediately; `flush_tick` drains,
/// stages and bulk-loads one batch, keeping the batch whole on any
/// failure; `list` merges a bounded durable page with the pending
/// snapshot.  The upload and load outcomes are the tick's arguments: in a
/// deployment they report what the real clients did, and every clause
/// below holds whichever way they land.
pub struct BufferedResource {
    /// The write-behind buffer, named after the resource's table.
    pub buffer: Buffer,
    /// The durable analytical store.
    pub store: DurableStoreModel,
    /// The staging object store batches land in before their bulk load.
    pub staging: StagingStoreModel,
    /// The validated bulk-load target.
    pub table: TableName,
    /// The batch token the next flush will stage under; never reused.
    pub next_token: u64,
}

impl BufferedResource {
    /// An empty backend for one resource; the buffer takes the table's
    /// name.
    pub fn new(table: TableName) -> (s: BufferedResource)
        ensures
            s.buffer@ == Seq::<Seq<u8>>::empty(),
            s.buffer.name_spec() == table@,
            s.store.rows_view() == Seq::<(u64, Seq<u8>)>::empty(),
            s.store.rows@.len() == 0,
            s.store.next_id == 1,
            s.store.bulk_loads == 0,
            s.staging.objects_view() == Seq::<((Seq<u8>, u64), Seq<u8>)>::empty(),
            s.staging.objects@.len() == 0,
            s.table@ == table@,
            s.next_token == 0,
    {
        let name = clone_row(table.as_bytes());
        BufferedResource {
            buffer: Buffer::new(name),
            store: DurableStoreModel::new(),
            staging: StagingStoreModel::new(),
            table,
            next_token: 0,
        }
    }

    /// How many records sit in the buffer: the depth signal operators
    /// watch while ingestion fails.
    pub fn pending_depth(&self) -> (n: usize)
        ensures
            n == self.buffer@.len(),
    {
        self.buffer.depth()
    }

    /// Accepts one serialized record: appends it to the buffer and
    /// acknowledges immediately, without waiting on any flush.  With the
    /// buffering substrate in hand this never fails; a deployment whose
    /// substrate is unreachable surfaces `BufferUnavailable` instead of
    /// dropping the write.
    pub fn create(&mut self, payload: Vec<u8>) -> (r: Result<PendingRecord, StorageError>)
        ensures
            r matches Ok(p) && p@ == payload@,
            final(self).buffer@ == old(self).buffer@.push(payload@),
            final(self).buffer.name_spec() == old(self).buffer.name_spec(),
            final(self).store == old(self).store,
            final(self).staging == old(self).staging,
            final(self).table == old(self).table,
            final(self).next_token == old(self).next_token,
    {
        Ok(self.buffer.append(payload))
    }

    /// The merged read: a bounded durable page, then everything pending.
    /// When the durable read fails (`durable_ok` false), the pending
    /// entries are still served, marked partial, rather than failing the
    /// whole read.
    pub fn list(&self, limit: usize, durable_ok: bool) -> (r: ListPage)
        ensures
            r.complete == durable_ok,
            durable_ok ==> entry_views(r.entries@) == merged(
                page_of(self.store.rows_view(), limit as int),
                self.buffer@,
            ),
            !durable_ok ==> entry_views(r.entries@) == merged(
                Seq::<(u64, Seq<u8>)>::empty(),
                self.buffer@,
            ),
    {
        let pending = self.buffer.snapshot();
        if durable_ok {
            let page = self.store.page(limit);
            let entries = merge_page(&page, &pending);
            ListPage { entries, complete: true }
        } else {
            let empty_page: Vec<PersistedRecord> = Vec::new();
            proof {
                assert(row_views(empty_page@) =~= Seq::<(u64, Seq<u8>)>::empty());
            }
            let entries = merge_page(&empty_page, &pending);
            ListPage { entries, complete: false }
        }
    }

    /// One scheduler tick: drain the buffer, and for a non-empty batch
    /// stage it under a fresh token and bulk-load the staged object.
    ///
    /// Flushing an empty buffer is a no-op that succeeds with zero rows.
    /// A successful flush of N records loads exactly N rows in one bulk
    /// load from one staged object, empties the buffer of exactly those
    /// records, and leaves everything it appends afterwards intact.  A
    /// failed upload stages nothing and loads nothing; a failed load
    /// keeps the staged object for retry and loads nothing; either way
    /// the whole batch is back in the buffer, in order, for the next
    /// tick.
    pub fn flush_tick(&mut self, upload_ok: bool, load_ok: bool) -> (r: Result<
        usize,
        StorageError,
    >)
        requires
            old(self).store.next_id + old(self).buffer@.len() <= u64::MAX,
            old(self).store.rows@.len() + old(self).buffer@.len() <= usize::MAX,
            old(self).store.bulk_loads < u64::MAX,
            old(self).next_token < u64::MAX,
        ensures
            final(self).buffer.name_spec() == old(self).buffer.name_spec(),
            final(self).table == old(self).table,
            old(self).buffer@.len() == 0 ==> {
                &&& r == Ok::<usize, StorageError>(0)
                &&& final(self).buffer@ == old(self).buffer@
                &&& final(self).store == old(self).store
                &&& final(self).staging == old(self).staging
                &&& final(self).next_token == old(self).next_token
            },
            old(self).buffer@.len() > 0 && !upload_ok ==> {
                &&& r == Err::<usize, StorageError>(StorageError::StagingUploadError)
                &&& final(self).buffer@ == old(self).buffer@
                &&& final(self).store == old(self).store
                &&& final(self).staging == old(self).staging
                &&& final(self).next_token == old(self).next_token
            },
            old(self).buffer@.len() > 0 && upload_ok && !load_ok ==> {
                &&& r == Err::<usize, StorageError>(StorageError::BulkLoadError)
                &&& final(self).buffer@ == old(self).buffer@
                &&& final(self).store == old(self).store
                &&& final(self).staging.objects_view() == old(self).staging.objects_view().push(
                    ((old(self).table@, old(self).next_token), encoded(old(self).buffer@)),
                )
                &&& final(self).next_token == old(self).next_token + 1
            },
            old(self).buffer@.len() > 0 && upload_ok && load_ok ==> {
                &&& r == Ok::<usize, StorageError>(old(self).buffer@.len() as usize)
                &&& final(self).buffer@ == Seq::<Seq<u8>>::empty()
                &&& final(self).store.rows_view() == old(self).store.rows_view() + loaded_rows(
                    old(self).buffer@,
                    old(self).store.next_id,
                )
                &&& final(self).store.rows_view().len() == old(self).store.rows_view().len()
                    + old(self).buffer@.len()
                &&& final(self).store.next_id == old(self).store.next_id + old(self).buffer@.len()
                &&& final(self).store.bulk_loads == old(self).store.bulk_loads + 1
                &&& final(self).staging.objects_view() == old(self).staging.objects_view().push(
                    ((old(self).table@, old(self).next_token), encoded(old(self).buffer@)),
                )
                &&& final(self).next_token == old(self).next_token + 1
            },
    {
        let ghost buffered = self.buffer@;
        let batch = self.buffer.drain_and_clear();
        if batch.is_empty() {
            proof {
                assert(views_of(batch@).len() == batch@.len());
                assert(self.buffer@ =~= buffered);
            }
            return Ok(0);
        }
        proof {
            assert(views_of(batch@).len() == batch@.len());
        }
        match self.process(&batch, upload_ok, load_ok) {
            Ok(n) => Ok(n),
            Err(e) => {
                self.buffer.requeue_front(batch);
                proof {
                    assert(views_of(batch@) + Seq::<Seq<u8>>::empty() =~= buffered);
                }
                Err(e)
            },
        }
    }

    /// The bulk ingest pipeline on one drained batch: serialize it, stage
    /// it under a fresh token, bulk-load the staged object, and report the
    /// rows loaded.  The buffer is never touched here, so no failure can
    /// lose the batch: a failed upload stages nothing and loads nothing; a
    /// failed load keeps the staged object, so a retry may load it without
    /// re-uploading; success loads exactly one row per record through one
    /// bulk-load command against one staged object.
    pub fn process(&mut self, batch: &Vec<Vec<u8>>, upload_ok: bool, load_ok: bool) -> (r: Result<
        usize,
        StorageError,
    >)
        requires
            old(self).store.next_id + batch@.len() <= u64::MAX,
            old(self).store.rows@.len() + batch@.len() <= usize::MAX,
            old(self).store.bulk_loads < u64::MAX,
            old(self).next_token < u64::MAX,
        ensures
            final(self).buffer == old(self).buffer,
            final(self).table == old(self).table,
            !upload_ok ==> {
                &&& r == Err::<usize, StorageError>(StorageError::StagingUploadError)
                &&& final(self).store == old(self).store
                &&& final(self).staging == old(self).staging
                &&& final(self).next_token == old(self).next_token
            },
            upload_ok && !load_ok ==> {
                &&& r == Err::<usize, StorageError>(StorageError::BulkLoadError)
                &&& final(self).store == old(self).store
                &&& final(self).staging.objects_view() == old(self).staging.objects_view().push(
                    ((old(self).table@, old(self).next_token), encoded(views_of(batch@))),
                )
                &&& final(self).next_token == old(self).next_token + 1
            },
            upload_ok && load_ok ==> {
                &&& r == Ok::<usize, StorageError>(batch@.len() as usize)
                &&& final(self).store.rows_view() == old(self).store.rows_view() + loaded_rows(
                    views_of(batch@),
                    old(self).store.next_id,
                )
                &&& final(self).store.next_id == old(self).store.next_id + batch@.len()
                &&& final(self).store.bulk_loads == old(self).store.bulk_loads + 1
                &&& final(self).staging.objects_view() == old(self).staging.objects_view().push(
                    ((old(self).table@, old(self).next_token), encoded(views_of(batch@))),
                )
                &&& final(self).next_token == old(self).next_token + 1
            },
    {
        if !upload_ok {
            return Err(StorageError::StagingUploadError);
        }
        let prepared = prepare_batch(&self.table, self.next_token, batch);
        self.next_token = self.next_token + 1;
        let idx = self.staging.put(StagedObject {
            address: prepared.address,
            payload: prepared.payload,
        });
        if !load_ok {
            return Err(StorageError::BulkLoadError);
        }
        let payload = clone_row(self.staging.payload_at(idx));
        proof {
            lemma_decode_encode(views_of(batch@));
            assert(views_of(batch@).len() == batch@.len());
        }
        match self.store.bulk_load(&payload) {
            Ok(n) => Ok(n),
            Err(_) => {
                proof {
                    assert(false);
                }
                Err(StorageError::BulkLoadError)
            },
        }
    }
}


/// Read completeness across a committed flush.
///
/// After a successful flush of `batch` into a store that held `store0`
/// (the rows the bulk load appended carry consecutive identities from
/// `first_id`, and the buffer is empty), a merged read whose page covers
/// the store returns every flushed record tagged persisted with its
/// assigned identity, and returns no pending entry at all: the record
/// moved from pending to persisted, it did not duplicate and did not
/// vanish.
pub proof fn lemma_flush_commits_reads(
    store0: Seq<(u64, Seq<u8>)>,
    batch: Seq<Seq<u8>>,
    first_id: u64,
    j: int,
    limit: int,
)
    requires
        0 <= j < batch.len(),
        first_id + batch.len() <= u64::MAX,
        store0.len() + batch.len() <= limit,
    ensures
        page_of(store0 + loaded_rows(batch, first_id), limit) == store0 + loaded_rows(
            batch,
            first_id,
        ),
        merged(store0 + loaded_rows(batch, first_id), Seq::<Seq<u8>>::empty())
            == persisted_entries(store0 + loaded_rows(batch, first_id)),
        merged(store0 + loaded_rows(batch, first_id), Seq::<Seq<u8>>::empty()).contains(
            EntryView::Persisted((first_id + j) as u64, batch[j]),
        ),
{
    let d = store0 + loaded_rows(batch, first_id);
    let m = merged(d, Seq::<Seq<u8>>::empty());
    assert(pending_entries(Seq::<Seq<u8>>::empty()) =~= Seq::<EntryView>::empty());
    assert(m =~= persisted_entries(d));
    lemma_read_completeness(d, Seq::<Seq<u8>>::empty(), batch[j]);
    let k = store0.len() + j;
    assert(d[k] == ((first_id + j) as u64, batch[j]));
    assert(m[k] == EntryView::Persisted((first_id + j) as u64, batch[j]));
    assert(m.contains(EntryView::Persisted((first_id + j) as u64, batch[j])));
}

} // verus!

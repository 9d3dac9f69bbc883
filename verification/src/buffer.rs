//! The per-resource write-behind buffer: a named, append-only, drainable
//! sequence of pending serialized records.
//!
//! The append path never waits on ingestion; the flush path drains.  A drain
//! is one logical operation: either the atomically popped range
//! ([`Buffer::drain_and_clear`], sound while the buffer is held exclusively)
//! or a snapshot followed by a clear of exactly the snapshotted range
//! ([`Buffer::snapshot`] then [`Buffer::clear_snapshot`]), which never
//! removes a record appended after the snapshot was taken.

use vstd::prelude::*;

use crate::models::PendingRecord;
use crate::rows::clone_row;
use crate::rows::clone_rows;
use crate::rows::lemma_views_of_add;
use crate::rows::lemma_views_of_push;
use crate::rows::lemma_views_of_subrange;
use crate::rows::views_of;

verus! {

/// A named buffer of serialized records awaiting flush, in FIFO append
/// order.  Its view is the sequence of buffered rows, oldest first.
pub struct Buffer {
    name: Vec<u8>,
    entries: Vec<Vec<u8>>,
}

impl View for Buffer {
    type V = Seq<Seq<u8>>;

    closed spec fn view(&self) -> Seq<Seq<u8>> {
        views_of(self.entries@)
    }
}

impl Buffer {
    /// The resource/queue name this buffer was created under.
    pub closed spec fn name_spec(&self) -> Seq<u8> {
        self.name@
    }

    /// An empty buffer for the named resource.
    pub fn new(name: Vec<u8>) -> (b: Buffer)
        ensures
            b@ == Seq::<Seq<u8>>::empty(),
            b.name_spec() == name@,
    {
        let b = Buffer { name, entries: Vec::new() };
        proof {
            assert(b@ =~= Seq::<Seq<u8>>::empty());
        }
        b
    }

    /// The buffer's name.
    pub fn name(&self) -> (n: &Vec<u8>)
        ensures
            n@ == self.name_spec(),
    {
        &self.name
    }

    /// The number of buffered records: the operational signal for
    /// monitoring unbounded growth while ingestion fails.
    pub fn depth(&self) -> (n: usize)
        ensures
            n == self@.len(),
    {
        self.entries.len()
    }

    /// Accepts one serialized record at the end of the buffer and returns
    /// the pending acknowledgement immediately; never waits on ingestion.
    pub fn append(&mut self, record: Vec<u8>) -> (p: PendingRecord)
        ensures
            final(self)@ == old(self)@.push(record@),
            final(self).name_spec() == old(self).name_spec(),
            p@ == record@,
    {
        let payload = clone_row(&record);
        proof {
            lemma_views_of_push(self.entries@, record);
        }
        self.entries.push(record);
        PendingRecord { payload }
    }

    /// The current contents, oldest first, without mutating the buffer.
    pub fn snapshot(&self) -> (s: Vec<Vec<u8>>)
        ensures
            views_of(s@) == self@,
            s@.len() == self@.len(),
    {
        clone_rows(&self.entries)
    }

    /// Atomically removes and returns everything buffered: the popped-range
    /// form of drain, one operation under the exclusive borrow, so no
    /// concurrent append can fall between the read and the clear.
    pub fn drain_and_clear(&mut self) -> (batch: Vec<Vec<u8>>)
        ensures
            views_of(batch@) == old(self)@,
            final(self)@ == Seq::<Seq<u8>>::empty(),
            final(self).name_spec() == old(self).name_spec(),
    {
        let mut batch: Vec<Vec<u8>> = Vec::new();
        std::mem::swap(&mut batch, &mut self.entries);
        proof {
            assert(self@ =~= Seq::<Seq<u8>>::empty());
        }
        batch
    }

    /// Removes exactly the `count` oldest records: the clear half of a
    /// snapshot-based drain.  Records appended after the snapshot was taken
    /// sit past the snapshotted range and survive.
    pub fn clear_snapshot(&mut self, count: usize)
        requires
            count <= old(self)@.len(),
        ensures
            final(self)@ == old(self)@.skip(count as int),
            final(self).name_spec() == old(self).name_spec(),
    {
        proof {
            lemma_views_of_subrange(
                self.entries@,
                count as int,
                self.entries@.len() as int,
            );
        }
        let rest = self.entries.split_off(count);
        self.entries = rest;
    }

    /// Puts a failed batch back at the front of the buffer, ahead of
    /// records appended since it was drained, so the next tick retries it
    /// in the original order.
    pub fn requeue_front(&mut self, batch: Vec<Vec<u8>>)
        ensures
            final(self)@ == views_of(batch@) + old(self)@,
            final(self).name_spec() == old(self).name_spec(),
    {
        let mut tail: Vec<Vec<u8>> = batch;
        std::mem::swap(&mut tail, &mut self.entries);
        proof {
            lemma_views_of_add(self.entries@, tail@);
        }
        self.entries.append(&mut tail);
    }
}

/// No loss under concurrency: when a drain is split into a snapshot and a
/// clear of the snapshotted range, every record present when the clear runs
/// is accounted for, whichever side of the snapshot its append landed on.
///
/// `snap` is the buffer contents the snapshot captured (the drained batch)
/// and `late` the records appended between snapshot and clear, so the buffer
/// holds `snap + late` when the clear runs.  The clear leaves exactly
/// `late`, and any record `x` present before the clear is in the drained
/// batch or still in the buffer afterward — never in neither.
pub proof fn lemma_no_loss_under_concurrency(snap: Seq<Seq<u8>>, late: Seq<Seq<u8>>, x: Seq<u8>)
    requires
        (snap + late).contains(x),
    ensures
        (snap + late).skip(snap.len() as int) == late,
        snap.contains(x) || (snap + late).skip(snap.len() as int).contains(x),
{
    assert((snap + late).skip(snap.len() as int) =~= late);
    let i = choose|i: int| 0 <= i < (snap + late).len() && (snap + late)[i] == x;
    if i < snap.len() {
        assert(snap[i] == x);
    } else {
        assert(late[i - snap.len()] == x);
    }
}

} // verus!

//! The merged read: one durable page concatenated with the pending
//! buffer snapshot, so a record accepted by `create` never vanishes from
//! reads while it waits for its flush.

use vstd::prelude::*;

use crate::models::EntryView;
use crate::models::ListEntry;
use crate::models::PersistedRecord;
use crate::rows::clone_row;
use crate::rows::views_of;

verus! {

/// The mathematical contents of a vector of read entries.
pub open spec fn entry_views(s: Seq<ListEntry>) -> Seq<EntryView> {
    s.map_values(|e: ListEntry| e@)
}

/// Durable rows as (identity, payload) pairs.
pub open spec fn row_views(rows: Seq<PersistedRecord>) -> Seq<(u64, Seq<u8>)> {
    rows.map_values(|p: PersistedRecord| p@)
}

/// Durable rows as read entries, in page order.
pub open spec fn persisted_entries(rows: Seq<(u64, Seq<u8>)>) -> Seq<EntryView> {
    rows.map_values(|p: (u64, Seq<u8>)| EntryView::Persisted(p.0, p.1))
}

/// Buffered rows as read entries, in append order.
pub open spec fn pending_entries(rows: Seq<Seq<u8>>) -> Seq<EntryView> {
    rows.map_values(|r: Seq<u8>| EntryView::Pending(r))
}

/// What a merged read returns: every durable row of the page, then every
/// still-buffered row tagged pending.
pub open spec fn merged(durable: Seq<(u64, Seq<u8>)>, pending: Seq<Seq<u8>>) -> Seq<EntryView> {
    persisted_entries(durable) + pending_entries(pending)
}

proof fn lemma_persisted_entries_push(rows: Seq<(u64, Seq<u8>)>, s: Seq<ListEntry>, e: ListEntry)
    requires
        entry_views(s) == persisted_entries(rows),
        e@ is Persisted,
    ensures
        entry_views(s.push(e)) == persisted_entries(rows.push((e@->Persisted_0, e@->Persisted_1))),
{
    let rows2 = rows.push((e@->Persisted_0, e@->Persisted_1));
    assert(entry_views(s).len() == s.len());
    assert(persisted_entries(rows).len() == rows.len());
    assert(entry_views(s.push(e)).len() == s.len() + 1);
    assert(persisted_entries(rows2).len() == rows.len() + 1);
    assert forall|k: int| 0 <= k < s.len() + 1 implies entry_views(s.push(e))[k]
        == persisted_entries(rows2)[k] by {
        assert(entry_views(s.push(e))[k] == s.push(e)[k]@);
        assert(persisted_entries(rows2)[k] == EntryView::Persisted(rows2[k].0, rows2[k].1));
        if k < s.len() {
            assert(entry_views(s)[k] == persisted_entries(rows)[k]);
            assert(entry_views(s)[k] == s[k]@);
            assert(persisted_entries(rows)[k] == EntryView::Persisted(rows[k].0, rows[k].1));
        }
    }
    assert(entry_views(s.push(e)) =~= persisted_entries(rows2));
}

proof fn lemma_pending_entries_push(
    durable: Seq<(u64, Seq<u8>)>,
    pend: Seq<Seq<u8>>,
    s: Seq<ListEntry>,
    e: ListEntry,
)
    requires
        entry_views(s) == persisted_entries(durable) + pending_entries(pend),
        e@ is Pending,
    ensures
        entry_views(s.push(e)) == persisted_entries(durable) + pending_entries(
            pend.push(e@->Pending_0),
        ),
{
    let rhs = persisted_entries(durable) + pending_entries(pend.push(e@->Pending_0));
    assert(entry_views(s).len() == s.len());
    assert(persisted_entries(durable).len() == durable.len());
    assert(pending_entries(pend).len() == pend.len());
    assert(pending_entries(pend.push(e@->Pending_0)).len() == pend.len() + 1);
    assert(entry_views(s.push(e)).len() == s.len() + 1);
    assert forall|k: int| 0 <= k < s.len() + 1 implies entry_views(s.push(e))[k] == rhs[k] by {
        assert(entry_views(s.push(e))[k] == s.push(e)[k]@);
        if k < durable.len() {
            assert(rhs[k] == persisted_entries(durable)[k]);
            assert(entry_views(s)[k] == (persisted_entries(durable) + pending_entries(pend))[k]);
            assert(entry_views(s)[k] == s[k]@);
        } else if k < s.len() {
            assert(rhs[k] == pending_entries(pend.push(e@->Pending_0))[k - durable.len()]);
            assert(pending_entries(pend.push(e@->Pending_0))[k - durable.len()]
                == EntryView::Pending(pend[k - durable.len()]));
            assert(entry_views(s)[k] == (persisted_entries(durable) + pending_entries(pend))[k]);
            assert((persisted_entries(durable) + pending_entries(pend))[k] == pending_entries(
                pend,
            )[k - durable.len()]);
            assert(entry_views(s)[k] == s[k]@);
        } else {
            assert(rhs[k] == pending_entries(pend.push(e@->Pending_0))[k - durable.len()]);
            assert(pend.push(e@->Pending_0)[k - durable.len()] == e@->Pending_0);
        }
    }
    assert(entry_views(s.push(e)) =~= rhs);
}

/// Concatenates a durable page with a buffer snapshot; each source row
/// becomes exactly one read entry.
pub fn merge_page(durable: &Vec<PersistedRecord>, pending: &Vec<Vec<u8>>) -> (out: Vec<ListEntry>)
    ensures
        entry_views(out@) == merged(row_views(durable@), views_of(pending@)),
{
    let ghost d = row_views(durable@);
    let ghost pend = views_of(pending@);
    proof {
        assert(d.len() == durable@.len());
        assert(pend.len() == pending@.len());
    }
    let mut out: Vec<ListEntry> = Vec::new();
    let mut i: usize = 0;
    while i < durable.len()
        invariant
            i <= durable@.len(),
            d == row_views(durable@),
            d.len() == durable@.len(),
            entry_views(out@) == persisted_entries(d.take(i as int)),
        decreases durable.len() - i,
    {
        let rec = &durable[i];
        let ghost pre_out = out@;
        let entry = ListEntry::Persisted(rec.id, clone_row(&rec.payload));
        proof {
            lemma_persisted_entries_push(d.take(i as int), pre_out, entry);
            assert(d.take(i as int).push((entry@->Persisted_0, entry@->Persisted_1)) =~= d.take(
                i + 1,
            ));
        }
        out.push(entry);
        i = i + 1;
    }
    proof {
        assert(d.take(d.len() as int) =~= d);
    }
    let mut j: usize = 0;
    while j < pending.len()
        invariant
            j <= pending@.len(),
            entry_views(out@) == persisted_entries(d) + pending_entries(pend.take(j as int)),
            pend == views_of(pending@),
            pend.len() == pending@.len(),
        decreases pending.len() - j,
    {
        let entry = ListEntry::Pending(clone_row(&pending[j]));
        proof {
            lemma_pending_entries_push(d, pend.take(j as int), out@, entry);
            assert(pend.take(j as int).push(entry@->Pending_0) =~= pend.take(j + 1));
        }
        out.push(entry);
        j = j + 1;
    }
    proof {
        assert(pend.take(pend.len() as int) =~= pend);
    }
    out
}

/// Read completeness over the merged view.
///
/// Every buffered row is read exactly once, tagged pending; every durable
/// row of the page is read exactly once, tagged persisted with its
/// identity; nothing else is read.  In particular a record the flush has
/// committed — present durably, no longer buffered — is read as persisted
/// and not also as pending.
pub proof fn lemma_read_completeness(
    durable: Seq<(u64, Seq<u8>)>,
    pending: Seq<Seq<u8>>,
    r: Seq<u8>,
)
    ensures
        merged(durable, pending).len() == durable.len() + pending.len(),
        forall|i: int|
            0 <= i < durable.len() ==> merged(durable, pending)[i] == EntryView::Persisted(
                durable[i].0,
                durable[i].1,
            ),
        forall|j: int|
            0 <= j < pending.len() ==> merged(durable, pending)[durable.len() + j]
                == EntryView::Pending(pending[j]),
        pending.contains(r) ==> merged(durable, pending).contains(EntryView::Pending(r)),
        !pending.contains(r) ==> !merged(durable, pending).contains(EntryView::Pending(r)),
        forall|id: u64|
            #[trigger] durable.contains((id, r)) ==> merged(durable, pending).contains(
                EntryView::Persisted(id, r),
            ),
{
    let m = merged(durable, pending);
    if pending.contains(r) {
        let j = choose|j: int| 0 <= j < pending.len() && pending[j] == r;
        assert(m[durable.len() + j] == EntryView::Pending(r));
        assert(m.contains(EntryView::Pending(r)));
    }
    if !pending.contains(r) {
        assert forall|k: int| 0 <= k < m.len() implies m[k] != EntryView::Pending(r) by {
            if k >= durable.len() {
                assert(m[k] == EntryView::Pending(pending[k - durable.len()]));
                assert(pending[k - durable.len()] != r);
            }
        }
        if m.contains(EntryView::Pending(r)) {
            let k = choose|k: int| 0 <= k < m.len() && m[k] == EntryView::Pending(r);
            assert(false);
        }
    }
    assert forall|id: u64| #[trigger] durable.contains((id, r)) implies m.contains(
        EntryView::Persisted(id, r),
    ) by {
        let i = choose|i: int| 0 <= i < durable.len() && durable[i] == (id, r);
        assert(m[i] == EntryView::Persisted(id, r));
    }
}

/// One merged read result.  When the durable page read fails, the read
/// still serves the pending entries and says so: `complete` is false and
/// the persisted portion is missing, rather than the whole read failing.
pub struct ListPage {
    /// The merged entries: the durable page, then the pending snapshot.
    pub entries: Vec<ListEntry>,
    /// Whether the durable portion was read; false marks a partial result.
    pub complete: bool,
}

} // verus!

//! Helpers for sequences of serialized rows.
//!
//! A row is an opaque byte string; batches are sequences of rows.  The spec
//! side of a batch is `Seq<Seq<u8>>`, obtained from the executable
//! `Vec<Vec<u8>>` through [`views_of`].

use vstd::prelude::*;

verus! {

/// The mathematical contents of a vector of rows.
pub open spec fn views_of(rows: Seq<Vec<u8>>) -> Seq<Seq<u8>> {
    rows.map_values(|r: Vec<u8>| r@)
}

pub proof fn lemma_views_of_push(rows: Seq<Vec<u8>>, r: Vec<u8>)
    ensures
        views_of(rows.push(r)) == views_of(rows).push(r@),
{
    assert(views_of(rows.push(r)) =~= views_of(rows).push(r@));
}

pub proof fn lemma_views_of_add(a: Seq<Vec<u8>>, b: Seq<Vec<u8>>)
    ensures
        views_of(a + b) == views_of(a) + views_of(b),
{
    assert(views_of(a + b) =~= views_of(a) + views_of(b));
}

pub proof fn lemma_views_of_subrange(rows: Seq<Vec<u8>>, i: int, j: int)
    requires
        0 <= i <= j <= rows.len(),
    ensures
        views_of(rows.subrange(i, j)) == views_of(rows).subrange(i, j),
{
    assert(views_of(rows.subrange(i, j)) =~= views_of(rows).subrange(i, j));
}

/// An exact copy of one row.
pub fn clone_row(row: &Vec<u8>) -> (r: Vec<u8>)
    ensures
        r@ == row@,
{
    let mut out: Vec<u8> = Vec::new();
    let mut i: usize = 0;
    while i < row.len()
        invariant
            i <= row.len(),
            out@ == row@.take(i as int),
        decreases row.len() - i,
    {
        out.push(row[i]);
        i = i + 1;
        proof {
            assert(out@ =~= row@.take(i as int));
        }
    }
    proof {
        assert(out@ =~= row@);
    }
    out
}

/// An exact copy of a batch of rows.
pub fn clone_rows(rows: &Vec<Vec<u8>>) -> (r: Vec<Vec<u8>>)
    ensures
        views_of(r@) == views_of(rows@),
        r@.len() == rows@.len(),
{
    let mut out: Vec<Vec<u8>> = Vec::new();
    let mut i: usize = 0;
    while i < rows.len()
        invariant
            i <= rows.len(),
            out@.len() == i,
            views_of(out@) == views_of(rows@).take(i as int),
        decreases rows.len() - i,
    {
        let row = clone_row(&rows[i]);
        out.push(row);
        i = i + 1;
        proof {
            assert(views_of(out@) =~= views_of(rows@).take(i as int));
        }
    }
    proof {
        assert(views_of(out@) =~= views_of(rows@));
    }
    out
}

} // verus!

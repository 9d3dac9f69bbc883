//! The staging payload row format.
//!
//! A batch is serialized as delimited rows: each record's bytes are written
//! with a two-byte escape for the delimiter and the escape byte itself, then
//! terminated by the row separator.  The format round-trips losslessly:
//! [`lemma_decode_encode`] proves that decoding an encoded batch yields the
//! batch back, and [`lemma_encode_lossless`] that no two batches share an
//! encoding.

use vstd::prelude::*;

use crate::rows::views_of;

verus! {

/// Terminates each encoded row.
pub const ROW_SEP: u8 = 0x0a;

/// Introduces a two-byte escape inside a row.
pub const ESCAPE: u8 = 0x5c;

/// Second byte of the escape standing for the row separator.
pub const ESCAPED_SEP: u8 = 0x6e;

/// How one payload byte is written inside a row.
pub open spec fn escaped_byte(b: u8) -> Seq<u8> {
    if b == ESCAPE {
        seq![ESCAPE, ESCAPE]
    } else if b == ROW_SEP {
        seq![ESCAPE, ESCAPED_SEP]
    } else {
        seq![b]
    }
}

/// One record's bytes with every byte escaped, separator not yet appended.
pub open spec fn escaped(r: Seq<u8>) -> Seq<u8>
    decreases r.len(),
{
    if r.len() == 0 {
        Seq::<u8>::empty()
    } else {
        escaped_byte(r[0]) + escaped(r.skip(1))
    }
}

/// The staging payload for a batch: each record escaped and terminated.
pub open spec fn encoded(batch: Seq<Seq<u8>>) -> Seq<u8>
    decreases batch.len(),
{
    if batch.len() == 0 {
        Seq::<u8>::empty()
    } else {
        escaped(batch[0]) + seq![ROW_SEP] + encoded(batch.skip(1))
    }
}

/// One step short of [`decoded`]: parses `bs` with a partial record `cur`
/// and already-parsed records `acc` in hand.
pub open spec fn decoded_from(bs: Seq<u8>, cur: Seq<u8>, acc: Seq<Seq<u8>>) -> Option<
    Seq<Seq<u8>>,
>
    decreases bs.len(),
{
    if bs.len() == 0 {
        if cur.len() == 0 {
            Some(acc)
        } else {
            None
        }
    } else if bs[0] == ESCAPE {
        if bs.len() == 1 {
            None
        } else if bs[1] == ESCAPE {
            decoded_from(bs.skip(2), cur.push(ESCAPE), acc)
        } else if bs[1] == ESCAPED_SEP {
            decoded_from(bs.skip(2), cur.push(ROW_SEP), acc)
        } else {
            None
        }
    } else if bs[0] == ROW_SEP {
        decoded_from(bs.skip(1), Seq::<u8>::empty(), acc.push(cur))
    } else {
        decoded_from(bs.skip(1), cur.push(bs[0]), acc)
    }
}

/// The batch a staging payload stands for, or `None` for bytes that no
/// batch encodes to (a dangling escape, an unknown escape pair, or an
/// unterminated final row).
pub open spec fn decoded(bs: Seq<u8>) -> Option<Seq<Seq<u8>>> {
    decoded_from(bs, Seq::<u8>::empty(), Seq::<Seq<u8>>::empty())
}

pub proof fn lemma_escaped_add(a: Seq<u8>, b: Seq<u8>)
    ensures
        escaped(a + b) == escaped(a) + escaped(b),
    decreases a.len(),
{
    if a.len() == 0 {
        assert(a + b =~= b);
        assert(escaped(a) + escaped(b) =~= escaped(b));
    } else {
        assert((a + b).skip(1) =~= a.skip(1) + b);
        lemma_escaped_add(a.skip(1), b);
        assert(escaped(a + b) =~= escaped(a) + escaped(b));
    }
}

pub proof fn lemma_escaped_singleton(b: u8)
    ensures
        escaped(seq![b]) == escaped_byte(b),
{
    assert(seq![b].skip(1) =~= Seq::<u8>::empty());
    assert(escaped(Seq::<u8>::empty()) =~= Seq::<u8>::empty());
    assert(escaped(seq![b]) =~= escaped_byte(b));
}

pub proof fn lemma_encoded_singleton(r: Seq<u8>)
    ensures
        encoded(seq![r]) == escaped(r) + seq![ROW_SEP],
{
    assert(seq![r].skip(1) =~= Seq::<Seq<u8>>::empty());
    assert(encoded(Seq::<Seq<u8>>::empty()) =~= Seq::<u8>::empty());
    assert(encoded(seq![r]) =~= escaped(r) + seq![ROW_SEP]);
}

pub proof fn lemma_encoded_add(a: Seq<Seq<u8>>, b: Seq<Seq<u8>>)
    ensures
        encoded(a + b) == encoded(a) + encoded(b),
    decreases a.len(),
{
    if a.len() == 0 {
        assert(a + b =~= b);
        assert(encoded(a) + encoded(b) =~= encoded(b));
    } else {
        assert((a + b).skip(1) =~= a.skip(1) + b);
        lemma_encoded_add(a.skip(1), b);
        assert(encoded(a + b) =~= encoded(a) + encoded(b));
    }
}

/// Consuming an escaped record moves its bytes onto the partial record.
proof fn lemma_decoded_from_escaped(r: Seq<u8>, rest: Seq<u8>, cur: Seq<u8>, acc: Seq<Seq<u8>>)
    ensures
        decoded_from(escaped(r) + rest, cur, acc) == decoded_from(rest, cur + r, acc),
    decreases r.len(),
{
    if r.len() == 0 {
        assert(escaped(r) + rest =~= rest);
        assert(cur + r =~= cur);
    } else {
        let bs = escaped(r) + rest;
        let tail = escaped(r.skip(1)) + rest;
        if r[0] == ESCAPE {
            assert(bs =~= seq![ESCAPE, ESCAPE] + tail);
            assert(bs.skip(2) =~= tail);
            lemma_decoded_from_escaped(r.skip(1), rest, cur.push(ESCAPE), acc);
            assert(cur.push(r[0]) + r.skip(1) =~= cur + r);
        } else if r[0] == ROW_SEP {
            assert(bs =~= seq![ESCAPE, ESCAPED_SEP] + tail);
            assert(bs.skip(2) =~= tail);
            lemma_decoded_from_escaped(r.skip(1), rest, cur.push(ROW_SEP), acc);
            assert(cur.push(r[0]) + r.skip(1) =~= cur + r);
        } else {
            assert(bs =~= seq![r[0]] + tail);
            assert(bs.skip(1) =~= tail);
            assert(bs[0] == r[0]);
            lemma_decoded_from_escaped(r.skip(1), rest, cur.push(r[0]), acc);
            assert(cur.push(r[0]) + r.skip(1) =~= cur + r);
        }
    }
}

proof fn lemma_decoded_from_encoded(batch: Seq<Seq<u8>>, acc: Seq<Seq<u8>>)
    ensures
        decoded_from(encoded(batch), Seq::<u8>::empty(), acc) == Some(acc + batch),
    decreases batch.len(),
{
    if batch.len() == 0 {
        assert(acc + batch =~= acc);
    } else {
        let rest = seq![ROW_SEP] + encoded(batch.skip(1));
        assert(encoded(batch) =~= escaped(batch[0]) + rest);
        lemma_decoded_from_escaped(batch[0], rest, Seq::<u8>::empty(), acc);
        assert(Seq::<u8>::empty() + batch[0] =~= batch[0]);
        assert(rest[0] == ROW_SEP);
        assert(rest.skip(1) =~= encoded(batch.skip(1)));
        lemma_decoded_from_encoded(batch.skip(1), acc.push(batch[0]));
        assert(acc.push(batch[0]) + batch.skip(1) =~= acc + batch);
    }
}

/// Round trip: decoding an encoded batch yields the batch back.
pub proof fn lemma_decode_encode(batch: Seq<Seq<u8>>)
    ensures
        decoded(encoded(batch)) == Some(batch),
{
    lemma_decoded_from_encoded(batch, Seq::<Seq<u8>>::empty());
    assert(Seq::<Seq<u8>>::empty() + batch =~= batch);
}

/// Losslessness: no two batches share a staging payload.
pub proof fn lemma_encode_lossless(a: Seq<Seq<u8>>, b: Seq<Seq<u8>>)
    requires
        encoded(a) == encoded(b),
    ensures
        a == b,
{
    lemma_decode_encode(a);
    lemma_decode_encode(b);
}

/// Serializes a batch to the staging payload.
pub fn encode_batch(batch: &Vec<Vec<u8>>) -> (out: Vec<u8>)
    ensures
        out@ == encoded(views_of(batch@)),
{
    let ghost vs = views_of(batch@);
    let mut out: Vec<u8> = Vec::new();
    let mut i: usize = 0;
    while i < batch.len()
        invariant
            i <= batch.len(),
            vs == views_of(batch@),
            vs.len() == batch@.len(),
            out@ == encoded(vs.take(i as int)),
        decreases batch.len() - i,
    {
        let row = &batch[i];
        let ghost out_start = out@;
        let mut j: usize = 0;
        while j < row.len()
            invariant
                j <= row.len(),
                out@ == out_start + escaped(row@.take(j as int)),
            decreases row.len() - j,
        {
            let b = row[j];
            if b == ESCAPE {
                out.push(ESCAPE);
                out.push(ESCAPE);
            } else if b == ROW_SEP {
                out.push(ESCAPE);
                out.push(ESCAPED_SEP);
            } else {
                out.push(b);
            }
            proof {
                assert(row@.take(j + 1) =~= row@.take(j as int) + seq![row@[j as int]]);
                lemma_escaped_add(row@.take(j as int), seq![row@[j as int]]);
                lemma_escaped_singleton(row@[j as int]);
                assert(out@ =~= out_start + escaped(row@.take(j + 1)));
            }
            j = j + 1;
        }
        proof {
            assert(row@.take(row@.len() as int) =~= row@);
        }
        out.push(ROW_SEP);
        proof {
            assert(vs.take(i + 1) =~= vs.take(i as int) + seq![vs[i as int]]);
            lemma_encoded_add(vs.take(i as int), seq![vs[i as int]]);
            lemma_encoded_singleton(vs[i as int]);
            assert(vs[i as int] == row@);
            assert(out@ =~= encoded(vs.take(i + 1)));
        }
        i = i + 1;
    }
    proof {
        assert(vs.take(vs.len() as int) =~= vs);
    }
    out
}

/// Parses a staging payload back into its batch; `None` exactly where no
/// batch encodes to these bytes.
pub fn decode_batch(bytes: &Vec<u8>) -> (r: Option<Vec<Vec<u8>>>)
    ensures
        match r {
            Some(out) => decoded(bytes@) == Some(views_of(out@)),
            None => decoded(bytes@) is None,
        },
{
    let mut acc: Vec<Vec<u8>> = Vec::new();
    let mut cur: Vec<u8> = Vec::new();
    let mut i: usize = 0;
    proof {
        assert(bytes@.skip(0) =~= bytes@);
        assert(views_of(acc@) =~= Seq::<Seq<u8>>::empty());
        assert(cur@ =~= Seq::<u8>::empty());
    }
    while i < bytes.len()
        invariant
            i <= bytes.len(),
            decoded(bytes@) == decoded_from(bytes@.skip(i as int), cur@, views_of(acc@)),
        decreases bytes.len() - i,
    {
        let ghost pre = bytes@.skip(i as int);
        proof {
            assert(pre[0] == bytes@[i as int]);
        }
        let b = bytes[i];
        if b == ESCAPE {
            if i + 1 == bytes.len() {
                proof {
                    assert(pre.len() == 1);
                }
                return None;
            }
            proof {
                assert(pre[1] == bytes@[i + 1]);
                assert(pre.skip(2) =~= bytes@.skip(i + 2));
            }
            let e = bytes[i + 1];
            if e == ESCAPE {
                cur.push(ESCAPE);
            } else if e == ESCAPED_SEP {
                cur.push(ROW_SEP);
            } else {
                return None;
            }
            i = i + 2;
        } else if b == ROW_SEP {
            proof {
                assert(pre.skip(1) =~= bytes@.skip(i + 1));
                crate::rows::lemma_views_of_push(acc@, cur);
            }
            let full = cur;
            cur = Vec::new();
            acc.push(full);
            proof {
                assert(cur@ =~= Seq::<u8>::empty());
            }
            i = i + 1;
        } else {
            proof {
                assert(pre.skip(1) =~= bytes@.skip(i + 1));
            }
            cur.push(b);
            i = i + 1;
        }
    }
    proof {
        assert(bytes@.skip(bytes@.len() as int) =~= Seq::<u8>::empty());
    }
    if cur.is_empty() {
        Some(acc)
    } else {
        None
    }
}

} // verus!

use vstd::prelude::*;

use crate::record::{
    all_fit, encode_record, encode_records, fits, header, lemma_encode_records_concat, lemma_encode_records_empty, lemma_encode_records_push, u32_le,
    Record, Span,
};

verus! {

// How a consumer reads the buffer: one header, then exactly `count` complete
// records as its children, recursively.

/// The little-endian integer in the four bytes at `i`.
pub open spec fn read_u32_le(b: Seq<u8>, i: int) -> nat {
    (b[i] + 256 * b[i + 1] + 65536 * b[i + 2] + 16777216 * b[i + 3]) as nat
}

/// Reads one record and its children from the front of `b`; returns it with
/// the bytes that follow.
pub open spec fn decode_record(b: Seq<u8>) -> Option<(Record, Seq<u8>)>
    decreases b.len(), 0nat, 0nat,
{
    if b.len() < 14 {
        None
    } else {
        let span = Span { lo: read_u32_le(b, 6) as u32, hi: read_u32_le(b, 10) as u32 };
        match decode_records(b.skip(14), read_u32_le(b, 2)) {
            Some((cs, rest)) => Some((Record { kind: b[0], span, children: cs }, rest)),
            None => None,
        }
    }
}

/// Reads `n` complete records one after another.
pub open spec fn decode_records(b: Seq<u8>, n: nat) -> Option<(Seq<Record>, Seq<u8>)>
    decreases b.len(), 1nat, n,
{
    if n == 0 {
        Some((Seq::empty(), b))
    } else {
        match decode_record(b) {
            Some((r, rest)) => if rest.len() < b.len() {
                match decode_records(rest, (n - 1) as nat) {
                    Some((rs, rest2)) => Some((seq![r] + rs, rest2)),
                    None => None,
                }
            } else {
                None
            },
            None => None,
        }
    }
}

/// The kinds of a record tree in pre-order.
pub open spec fn preorder_kinds(r: Record) -> Seq<u8>
    decreases r,
{
    seq![r.kind] + preorder_kinds_list(r.children)
}

pub open spec fn preorder_kinds_list(rs: Seq<Record>) -> Seq<u8>
    decreases rs,
{
    if rs.len() == 0 {
        Seq::empty()
    } else {
        preorder_kinds_list(rs.drop_last()) + preorder_kinds(rs.last())
    }
}

proof fn lemma_u32_le_read(v: u32, b: Seq<u8>, i: int)
    requires
        0 <= i,
        i + 4 <= b.len(),
        b.subrange(i, i + 4) == u32_le(v),
    ensures
        read_u32_le(b, i) == v,
{
    assert(b[i] == u32_le(v)[0]);
    assert(b[i + 1] == u32_le(v)[1]);
    assert(b[i + 2] == u32_le(v)[2]);
    assert(b[i + 3] == u32_le(v)[3]);
    assert(v == (v % 256) + 256 * ((v / 256) % 256) + 65536 * ((v / 65536) % 256) + 16777216 * (v
        / 16777216)) by (bit_vector);
}

proof fn lemma_encode_record_len(r: Record)
    ensures
        encode_record(r).len() >= 14,
{
}

/// Decoding the encoding of a tree whose counts fit gives the tree back, and
/// leaves the bytes after it untouched.
pub proof fn lemma_decode_encode(r: Record, rest: Seq<u8>)
    requires
        fits(r),
    ensures
        decode_record(encode_record(r) + rest) == Some((r, rest)),
    decreases r, 1nat,
{
    let b = encode_record(r) + rest;
    let h = header(r.kind, r.children.len(), r.span);
    let tail = encode_records(r.children) + rest;
    assert(b =~= h + tail);
    assert(b.subrange(2, 6) =~= u32_le(r.children.len() as u32));
    assert(b.subrange(6, 10) =~= u32_le(r.span.lo));
    assert(b.subrange(10, 14) =~= u32_le(r.span.hi));
    lemma_u32_le_read(r.children.len() as u32, b, 2);
    lemma_u32_le_read(r.span.lo, b, 6);
    lemma_u32_le_read(r.span.hi, b, 10);
    assert(b.skip(14) =~= tail);
    lemma_decode_encode_list(r.children, rest);
    let span = Span { lo: read_u32_le(b, 6) as u32, hi: read_u32_le(b, 10) as u32 };
    assert(span == r.span);
    assert(b[0] == r.kind);
    assert(Record { kind: b[0], span, children: r.children } == r);
}

pub proof fn lemma_decode_encode_list(rs: Seq<Record>, rest: Seq<u8>)
    requires
        all_fit(rs),
    ensures
        decode_records(encode_records(rs) + rest, rs.len()) == Some((rs, rest)),
    decreases rs, 0nat,
{
    lemma_encode_records_empty(rs);
    if rs.len() == 0 {
        assert(encode_records(rs) + rest =~= rest);
        assert(rs =~= Seq::<Record>::empty());
    } else {
        let r = rs[0];
        let t = rs.skip(1);
        assert(rs =~= seq![r] + t);
        assert(fits(r));
        assert forall|i: int| 0 <= i < t.len() implies fits(#[trigger] t[i]) by {
            assert(t[i] == rs[i + 1]);
        }
        lemma_encode_records_concat(seq![r], t);
        lemma_encode_records_empty(Seq::<Record>::empty());
        lemma_encode_records_push(Seq::<Record>::empty(), r);
        assert(encode_records(seq![r]) =~= encode_record(r));
        let b = encode_records(rs) + rest;
        let after = encode_records(t) + rest;
        assert(b =~= encode_record(r) + after);
        lemma_decode_encode(r, after);
        lemma_encode_record_len(r);
        lemma_decode_encode_list(t, rest);
        assert(seq![r] + t =~= rs);
    }
}

} // verus!

use vstd::prelude::*;

use crate::kind::FLAGS_NONE;

verus! {

/// Number of bytes in one record header.
pub const HEADER_LEN: usize = 14;

/// A source byte-offset range.
#[derive(Clone, Copy, Debug, PartialEq, Eq, Structural)]
pub struct Span {
    pub lo: u32,
    pub hi: u32,
}

/// Why an encode operation failed.
#[derive(Clone, Copy, Debug, PartialEq, Eq, Structural)]
pub enum EncodeError {
    /// A node has more children than the header's 4-byte count can hold.
    CountOverflow,
}

/// The four bytes of `v`, least significant first.
pub open spec fn u32_le(v: u32) -> Seq<u8> {
    seq![
        (v % 256) as u8,
        ((v / 256) % 256) as u8,
        ((v / 65536) % 256) as u8,
        (v / 16777216) as u8,
    ]
}

/// The header of one record: kind, flags, child count, span start, span end.
pub open spec fn header(kind: u8, count: nat, span: Span) -> Seq<u8> {
    seq![kind, FLAGS_NONE] + u32_le(count as u32) + u32_le(span.lo) + u32_le(span.hi)
}

/// A record as the decoder sees it: a kind, a span and the records that
/// follow it as its children.
pub struct Record {
    pub kind: u8,
    pub span: Span,
    pub children: Seq<Record>,
}

pub open spec fn leaf(kind: u8, span: Span) -> Record {
    Record { kind, span, children: Seq::empty() }
}

/// Every record in the tree declares a child count that the 4-byte field holds.
pub open spec fn fits(r: Record) -> bool
    decreases r,
{
    &&& r.children.len() <= u32::MAX
    &&& all_fit(r.children)
}

pub open spec fn all_fit(rs: Seq<Record>) -> bool
    decreases rs,
{
    forall|i: int| 0 <= i < rs.len() ==> fits(#[trigger] rs[i])
}

pub broadcast proof fn lemma_all_fit_empty(rs: Seq<Record>)
    ensures
        rs.len() == 0 ==> #[trigger] all_fit(rs),
{
}

/// A tree with a child that does not fit does not fit either.
pub proof fn lemma_unfit_child(r: Record, j: int)
    requires
        0 <= j < r.children.len(),
        !fits(r.children[j]),
    ensures
        !fits(r),
{
}

/// The bytes of a record: its header, then each child's bytes in order.
pub open spec fn encode_record(r: Record) -> Seq<u8>
    decreases r,
{
    header(r.kind, r.children.len(), r.span) + encode_records(r.children)
}

pub open spec fn encode_records(rs: Seq<Record>) -> Seq<u8>
    decreases rs,
{
    if rs.len() == 0 {
        Seq::empty()
    } else {
        encode_records(rs.drop_last()) + encode_record(rs.last())
    }
}

pub proof fn lemma_encode_records_concat(a: Seq<Record>, b: Seq<Record>)
    ensures
        encode_records(a + b) == encode_records(a) + encode_records(b),
    decreases b.len(),
{
    if b.len() == 0 {
        assert(a + b =~= a);
        assert(encode_records(a) + encode_records(b) =~= encode_records(a));
    } else {
        assert((a + b).drop_last() =~= a + b.drop_last());
        lemma_encode_records_concat(a, b.drop_last());
        assert(encode_records(a + b) =~= encode_records(a) + encode_records(b));
    }
}

pub broadcast proof fn lemma_bytes_ext_equal(a: Seq<u8>, b: Seq<u8>)
    ensures
        #[trigger] (a =~= b) ==> a == b,
{
}

pub broadcast proof fn lemma_encode_records_empty(rs: Seq<Record>)
    ensures
        rs.len() == 0 ==> #[trigger] encode_records(rs) == Seq::<u8>::empty(),
{
}

pub broadcast proof fn lemma_encode_records_push(rs: Seq<Record>, r: Record)
    ensures
        #[trigger] encode_records(rs.push(r)) == encode_records(rs) + encode_record(r),
{
    assert(rs.push(r).drop_last() =~= rs);
}

pub broadcast proof fn lemma_all_fit_push(rs: Seq<Record>, r: Record)
    ensures
        #[trigger] all_fit(rs.push(r)) <==> all_fit(rs) && fits(r),
{
    if all_fit(rs) && fits(r) {
        assert forall|i: int| 0 <= i < rs.push(r).len() implies fits(#[trigger] rs.push(r)[i]) by {
            if i < rs.len() {
                assert(rs.push(r)[i] == rs[i]);
            }
        }
    }
    if all_fit(rs.push(r)) {
        assert(rs.push(r)[rs.len() as int] == r);
        assert forall|i: int| 0 <= i < rs.len() implies fits(#[trigger] rs[i]) by {
            assert(rs.push(r)[i] == rs[i]);
        }
    }
}

pub proof fn lemma_all_fit_concat(a: Seq<Record>, b: Seq<Record>)
    ensures
        all_fit(a + b) <==> all_fit(a) && all_fit(b),
{
    if all_fit(a + b) {
        assert forall|i: int| 0 <= i < a.len() implies fits(#[trigger] a[i]) by {
            assert((a + b)[i] == a[i]);
        }
        assert forall|i: int| 0 <= i < b.len() implies fits(#[trigger] b[i]) by {
            assert((a + b)[a.len() + i] == b[i]);
        }
    }
}

// The encoding and fit of a record with a fixed number of children.

pub proof fn lemma_leaf(r: Record)
    requires
        r.children.len() == 0,
    ensures
        encode_record(r) == header(r.kind, 0, r.span),
        fits(r),
{
    lemma_encode_records_empty(r.children);
    lemma_all_fit_empty(r.children);
    assert(encode_record(r) == header(r.kind, 0, r.span) + encode_records(r.children));
    assert(header(r.kind, 0, r.span) + Seq::<u8>::empty() =~= header(r.kind, 0, r.span));
}

/// The bytes and fit of a list built by pushes, one element at a time.
proof fn lemma_push_two(a: Record, b: Record)
    ensures
        encode_records(seq![a]) == encode_record(a),
        all_fit(seq![a]) <==> fits(a),
        encode_records(seq![a].push(b)) == encode_record(a) + encode_record(b),
        all_fit(seq![a].push(b)) <==> fits(a) && fits(b),
{
    let e = Seq::<Record>::empty();
    lemma_encode_records_empty(e);
    lemma_all_fit_empty(e);
    lemma_encode_records_push(e, a);
    lemma_all_fit_push(e, a);
    assert(Seq::<u8>::empty() + encode_record(a) =~= encode_record(a));
    lemma_encode_records_push(seq![a], b);
    lemma_all_fit_push(seq![a], b);
}

pub proof fn lemma_node_one(r: Record, a: Record)
    requires
        r.children == seq![a],
    ensures
        encode_record(r) == header(r.kind, 1, r.span) + encode_record(a),
        fits(r) <==> fits(a),
{
    lemma_push_two(a, a);
    assert(encode_record(r) == header(r.kind, 1, r.span) + encode_records(r.children));
}

pub proof fn lemma_node_two(r: Record, a: Record, b: Record)
    requires
        r.children == seq![a].push(b),
    ensures
        encode_record(r) == header(r.kind, 2, r.span) + encode_record(a) + encode_record(b),
        fits(r) <==> fits(a) && fits(b),
{
    lemma_push_two(a, b);
    assert(encode_record(r) == header(r.kind, 2, r.span) + encode_records(r.children));
    assert(header(r.kind, 2, r.span) + (encode_record(a) + encode_record(b)) =~= header(
        r.kind,
        2,
        r.span,
    ) + encode_record(a) + encode_record(b));
}

pub proof fn lemma_node_three(r: Record, a: Record, b: Record, c: Record)
    requires
        r.children == seq![a].push(b).push(c),
    ensures
        encode_record(r) == header(r.kind, 3, r.span) + encode_record(a) + encode_record(b)
            + encode_record(c),
        fits(r) <==> fits(a) && fits(b) && fits(c),
{
    let ab = seq![a].push(b);
    lemma_push_two(a, b);
    lemma_encode_records_push(ab, c);
    lemma_all_fit_push(ab, c);
    assert(encode_record(r) == header(r.kind, 3, r.span) + encode_records(r.children));
    assert(header(r.kind, 3, r.span) + (encode_record(a) + encode_record(b) + encode_record(c))
        =~= header(r.kind, 3, r.span) + encode_record(a) + encode_record(b) + encode_record(c));
}

pub proof fn lemma_node_four(r: Record, a: Record, b: Record, c: Record, d: Record)
    requires
        r.children == seq![a].push(b).push(c).push(d),
    ensures
        encode_record(r) == header(r.kind, 4, r.span) + encode_record(a) + encode_record(b)
            + encode_record(c) + encode_record(d),
        fits(r) <==> fits(a) && fits(b) && fits(c) && fits(d),
{
    let ab = seq![a].push(b);
    let abc = ab.push(c);
    lemma_push_two(a, b);
    lemma_encode_records_push(ab, c);
    lemma_all_fit_push(ab, c);
    lemma_encode_records_push(abc, d);
    lemma_all_fit_push(abc, d);
    assert(encode_record(r) == header(r.kind, 4, r.span) + encode_records(r.children));
    assert(header(r.kind, 4, r.span) + (encode_record(a) + encode_record(b) + encode_record(c)
        + encode_record(d)) =~= header(r.kind, 4, r.span) + encode_record(a) + encode_record(b)
        + encode_record(c) + encode_record(d));
}

fn push_u32_le(out: &mut Vec<u8>, v: u32)
    ensures
        final(out)@ == old(out)@ + u32_le(v),
{
    out.push((v % 256) as u8);
    out.push(((v / 256) % 256) as u8);
    out.push(((v / 65536) % 256) as u8);
    out.push((v / 16777216) as u8);
    assert(final(out)@ =~= old(out)@ + u32_le(v));
}

/// Appends one record header whose count is known to fit.
pub fn push_header(result: &mut Vec<u8>, kind: u8, count: u32, span: Span)
    ensures
        final(result)@ == old(result)@ + header(kind, count as nat, span),
{
    result.push(kind);
    result.push(FLAGS_NONE);
    push_u32_le(result, count);
    push_u32_le(result, span.lo);
    push_u32_le(result, span.hi);
    assert(final(result)@ =~= old(result)@ + header(kind, count as nat, span));
}

/// Appends one record header; fails, leaving `result` as it was, when
/// `count` does not fit in the 4-byte count field.
pub fn push_node(result: &mut Vec<u8>, kind: u8, count: u128, span: Span) -> (r: Result<
    (),
    EncodeError,
>)
    ensures
        r is Ok <==> count <= u32::MAX,
        r is Ok ==> final(result)@ == old(result)@ + header(kind, count as nat, span),
        r is Err ==> final(result)@ == old(result)@,
{
    if count > u32::MAX as u128 {
        return Err(EncodeError::CountOverflow);
    }
    push_header(result, kind, count as u32, span);
    Ok(())
}

} // verus!

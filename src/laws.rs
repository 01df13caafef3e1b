use vstd::prelude::*;

use crate::ast::{BlockStmt, Expr, Stmt};
use crate::kind::{BLOCK, IF};
use crate::record::{encode_record, header, Span};
use crate::shape::{
    args_records, block_record, lemma_args_records, program_bytes, spread_count, stmt_record,
};
use crate::ast::Program;
use crate::decode::{decode_record, lemma_decode_encode, preorder_kinds};
use crate::record::fits;
use crate::shape::program_record;

verus! {

/// Encoding is a function of the tree: the same program always gives the
/// same bytes.
pub proof fn law_encoding_deterministic(p: Program, q: Program)
    requires
        p == q,
    ensures
        program_bytes(p) == program_bytes(q),
{
}

/// Every record declares exactly as many children as there are complete
/// records after it: reading the root and then, recursively, each record's
/// declared count of complete records consumes the whole buffer, with no
/// record missing and no byte left over.
pub proof fn law_counts_match_records(p: Program)
    requires
        fits(program_record(p)),
    ensures
        decode_record(program_bytes(p)) == Some((program_record(p), Seq::<u8>::empty())),
{
    lemma_decode_encode(program_record(p), Seq::empty());
    assert(program_bytes(p) + Seq::<u8>::empty() =~= program_bytes(p));
}

/// Decoding the buffer of a program rebuilds its record tree, so the node
/// kinds come back in the same pre-order as in the syntax tree.
pub proof fn law_decode_round_trip(p: Program)
    requires
        fits(program_record(p)),
    ensures
        decode_record(program_bytes(p)) matches Some((t, rest)) && t == program_record(p)
            && preorder_kinds(t) == preorder_kinds(program_record(p)) && rest.len() == 0,
{
    law_counts_match_records(p);
}

/// An empty block is a record with count 0 and no records after it.
pub proof fn law_empty_block(span: Span, b: BlockStmt)
    requires
        b.span == span,
        b.stmts@.len() == 0,
    ensures
        block_record(b).kind == BLOCK,
        block_record(b).children.len() == 0,
        encode_record(block_record(b)) == header(BLOCK, 0, span),
{
    assert(b.stmts@ =~= Seq::<Stmt>::empty());
    assert(encode_record(block_record(b)) =~= header(BLOCK, 0, span));
}

/// An `if` without `else` declares two children; with one, three.
pub proof fn law_if_count(s: Stmt)
    requires
        s is If,
    ensures
        stmt_record(s).kind == IF,
        stmt_record(s).children.len() == if s->If_alt is Some { 3nat } else { 2nat },
{
}

/// A call with `n` arguments of which `k` are spread declares `1 + n + k`
/// children.
pub proof fn law_call_count(e: Expr)
    requires
        e is Call,
    ensures
        crate::shape::expr_record(e).children.len() == 1 + e->Call_args@.len()
            + spread_count(e->Call_args@),
{
    lemma_args_records(e->Call_args@, 0);
}

} // verus!

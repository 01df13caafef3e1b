use vstd::prelude::*;

use crate::ast::{
    ArrowBody, BlockStmt, Ident, Callee, Decl, Expr, ExprOrSpread, ForHead, ForInit, Lit, MemberProp,
    ModuleDecl, ModuleItem, Pat, Program, Prop, PropOrSpread, Stmt, SwitchCase, VarDecl,
    VarDeclarator,
};
use crate::kind::{
    ARRAY, ARROW, ASSIGN, AWAIT, BIG_INT, BIN, BLOCK, BOOL, BREAK, CALL, CLASS, CLASS_EXPR, COND,
    CONTINUE, DEBUGGER, DO_WHILE, EMPTY, EMPTY_EXPR, EXPORT_ALL, EXPORT_DECL, EXPORT_DEFAULT_DECL,
    EXPORT_DEFAULT_EXPR, EXPORT_NAMED, EXPR, FN, FN_EXPR, FOR, FOR_IN, FOR_OF, IDENT, IF, IMPORT,
    INVALID, JSX_ELEMENT, JSX_EMPTY, JSX_FRAGMENT, JSX_MEMBER, JSX_NAMESPACED_NAME, JSX_TEXT,
    LABELED, MEMBER, META_PROP, NEW, NULL, NUM, OBJECT, OPT_CHAIN, PRIVATE_NAME, PROGRAM, REGEX,
    RETURN, SEQUENCE, SPREAD, STRING_LITERAL, SUPER_PROP, SWITCH, SWITCH_CASE, TAGGED_TPL,
    THIS, THROW, TPL, TRY, TS_AS, TS_CONST_ASSERTION, TS_ENUM, TS_EXPORT_ASSIGNMENT,
    TS_IMPORT_EQUALS, TS_INSTANTIATION, TS_INTERFACE, TS_MODULE, TS_NAMESPACE_EXPORT,
    TS_NON_NULL, TS_SATISFIES, WITH, SUPER, TS_TYPE, TS_TYPE_ALIAS, TS_TYPE_ASSERTION, UNARY, UPDATE, USING,
    VAR, VAR_DECLARATOR, WHILE, YIELD,
};
use crate::record::{
    leaf,
    lemma_leaf, lemma_node_four, lemma_node_one, lemma_node_three, lemma_node_two,
    all_fit, encode_record, encode_records, fits, lemma_all_fit_concat, lemma_all_fit_empty,
    lemma_all_fit_push, lemma_unfit_child,
    lemma_bytes_ext_equal, lemma_encode_records_concat, lemma_encode_records_empty, lemma_encode_records_push, push_header, push_node, EncodeError,
    Record, Span, header,
};
use crate::shape::{
    for_head_record, for_init_record, ident_record, jump_record, slot_record,
    arg_records, args_records, block_record, case_record, cases_records, decl_record,
    declarator_record,
    declarators_records, elem_record, elems_records, expr_record, exprs_records,
    lemma_args_records, lemma_cases_records, lemma_declarators_records, lemma_elems_records,
    lemma_exprs_records, lemma_module_items_records, lemma_pats_records, lemma_props_records,
    lemma_stmts_records, member_prop_record, module_decl_record, module_items_records,
    pat_record, pats_records, program_bytes, program_record, prop_record, props_records,
    spread_count, stmt_record, stmts_records, var_decl_record,
};

verus! {

broadcast use {
    lemma_all_fit_empty,
    lemma_all_fit_push,
    lemma_encode_records_empty,
    lemma_encode_records_push,
    lemma_bytes_ext_equal,
};

proof fn lemma_concat(a: Seq<Record>, b: Seq<Record>)
    ensures
        encode_records(a + b) == encode_records(a) + encode_records(b),
        all_fit(a + b) <==> all_fit(a) && all_fit(b),
{
    lemma_encode_records_concat(a, b);
    lemma_all_fit_concat(a, b);
}

/// Encodes a program: the root record, whose count is the number of
/// top-level items, followed by each item in source order.
pub fn serialize_ast_bin(program: &Program) -> (r: Result<Vec<u8>, EncodeError>)
    ensures
        r is Ok <==> fits(program_record(*program)),
        r matches Ok(b) ==> b@ == program_bytes(*program),
{
    let mut result: Vec<u8> = Vec::new();
    match program {
        Program::Module { span, body } => {
            proof {
                lemma_module_items_records(body@, 0);
            }
            if let Err(e) = push_node(&mut result, PROGRAM, body.len() as u128, *span) {
                return Err(e);
            }
            if let Err(e) = serialize_module_items(&mut result, body) {
                return Err(e);
            }
        },
        Program::Script { span, body } => {
            proof {
                lemma_stmts_records(body@, 0);
            }
            if let Err(e) = push_node(&mut result, PROGRAM, body.len() as u128, *span) {
                return Err(e);
            }
            if let Err(e) = serialize_stmts(&mut result, body) {
                return Err(e);
            }
        },
    }
    assert(result@ =~= program_bytes(*program));
    Ok(result)
}

fn serialize_module_items(result: &mut Vec<u8>, items: &Vec<ModuleItem>) -> (r: Result<
    (),
    EncodeError,
>)
    ensures
        r is Ok <==> all_fit(module_items_records(items@)),
        r is Ok ==> final(result)@ =~= old(result)@ + encode_records(
            module_items_records(items@),
        ),
{
    let mut i: usize = 0;
    while i < items.len()
        invariant
            0 <= i <= items.len(),
            all_fit(module_items_records(items@.take(i as int))),
            result@ =~= old(result)@ + encode_records(module_items_records(items@.take(i as int))),
        decreases items.len() - i,
    {
        proof {
            assert(items@.take(i + 1).drop_last() =~= items@.take(i as int));
        }
        let r = match &items[i] {
            ModuleItem::ModuleDecl(d) => {
                serialize_module_decl(result, d);
                Ok(())
            },
            ModuleItem::Stmt(s) => serialize_stmt(result, s),
        };
        if r.is_err() {
            proof {
                lemma_module_items_records(items@, i + 1);
            }
            return r;
        }
        i += 1;
    }
    assert(items@.take(i as int) =~= items@);
    Ok(())
}

fn serialize_module_decl(result: &mut Vec<u8>, d: &ModuleDecl)
    ensures
        fits(module_decl_record(*d)),
        final(result)@ =~= old(result)@ + encode_record(module_decl_record(*d)),
{
    let (kind, span) = match d {
        ModuleDecl::Import(s) => (IMPORT, *s),
        ModuleDecl::ExportDecl(s) => (EXPORT_DECL, *s),
        ModuleDecl::ExportNamed(s) => (EXPORT_NAMED, *s),
        ModuleDecl::ExportDefaultDecl(s) => (EXPORT_DEFAULT_DECL, *s),
        ModuleDecl::ExportDefaultExpr(s) => (EXPORT_DEFAULT_EXPR, *s),
        ModuleDecl::ExportAll(s) => (EXPORT_ALL, *s),
        ModuleDecl::TsImportEquals(s) => (TS_IMPORT_EQUALS, *s),
        ModuleDecl::TsExportAssignment(s) => (TS_EXPORT_ASSIGNMENT, *s),
        ModuleDecl::TsNamespaceExport(s) => (TS_NAMESPACE_EXPORT, *s),
    };
    push_header(result, kind, 0, span);
}

fn serialize_stmts(result: &mut Vec<u8>, ss: &Vec<Stmt>) -> (r: Result<(), EncodeError>)
    ensures
        r is Ok <==> all_fit(stmts_records(ss@)),
        r is Ok ==> final(result)@ =~= old(result)@ + encode_records(stmts_records(ss@)),
    decreases ss,
{
    let mut i: usize = 0;
    while i < ss.len()
        invariant
            0 <= i <= ss.len(),
            all_fit(stmts_records(ss@.take(i as int))),
            result@ =~= old(result)@ + encode_records(stmts_records(ss@.take(i as int))),
        decreases ss.len() - i,
    {
        proof {
            assert(ss@.take(i + 1).drop_last() =~= ss@.take(i as int));
        }
        let r = serialize_stmt(result, &ss[i]);
        if r.is_err() {
            proof {
                lemma_stmts_records(ss@, i + 1);
            }
            return r;
        }
        i += 1;
    }
    assert(ss@.take(i as int) =~= ss@);
    Ok(())
}

fn serialize_block(result: &mut Vec<u8>, b: &BlockStmt) -> (r: Result<(), EncodeError>)
    ensures
        r is Ok <==> fits(block_record(*b)),
        r is Ok ==> final(result)@ =~= old(result)@ + encode_record(block_record(*b)),
    decreases b,
{
    proof {
        lemma_stmts_records(b.stmts@, 0);
    }
    if let Err(e) = push_node(result, BLOCK, b.stmts.len() as u128, b.span) {
        return Err(e);
    }
    serialize_stmts(result, &b.stmts)
}

fn serialize_cases(result: &mut Vec<u8>, cs: &Vec<SwitchCase>) -> (r: Result<(), EncodeError>)
    ensures
        r is Ok <==> all_fit(cases_records(cs@)),
        r is Ok ==> final(result)@ =~= old(result)@ + encode_records(cases_records(cs@)),
    decreases cs,
{
    let mut i: usize = 0;
    while i < cs.len()
        invariant
            0 <= i <= cs.len(),
            all_fit(cases_records(cs@.take(i as int))),
            result@ =~= old(result)@ + encode_records(cases_records(cs@.take(i as int))),
        decreases cs.len() - i,
    {
        proof {
            assert(cs@.take(i + 1).drop_last() =~= cs@.take(i as int));
        }
        let r = serialize_case(result, &cs[i]);
        if r.is_err() {
            proof {
                lemma_cases_records(cs@, i + 1);
            }
            return r;
        }
        i += 1;
    }
    assert(cs@.take(i as int) =~= cs@);
    Ok(())
}

/// A case's count is its statement count, plus one for its test.
#[verifier::rlimit(100)]
fn serialize_case(result: &mut Vec<u8>, c: &SwitchCase) -> (r: Result<(), EncodeError>)
    ensures
        r is Ok <==> fits(case_record(*c)),
        r is Ok ==> final(result)@ =~= old(result)@ + encode_record(case_record(*c)),
    decreases c,
{
    let ghost head = crate::shape::opt_expr_records(c.test);
    proof {
        lemma_stmts_records(c.cons@, 0);
        lemma_concat(head, stmts_records(c.cons@));
    }
    let count: u128 = if c.test.is_some() {
        c.cons.len() as u128 + 1
    } else {
        c.cons.len() as u128
    };
    if let Err(e) = push_node(result, SWITCH_CASE, count, c.span) {
        return Err(e);
    }
    if let Some(t) = &c.test {
        if let Err(e) = serialize_expr(result, t) {
            proof {
                lemma_unfit_child(case_record(*c), 0);
            }
            return Err(e);
        }
    }
    serialize_stmts(result, &c.cons)
}

fn serialize_pat(result: &mut Vec<u8>, p: &Pat) -> (r: Result<(), EncodeError>)
    ensures
        r is Ok <==> fits(pat_record(*p)),
        r is Ok ==> final(result)@ =~= old(result)@ + encode_record(pat_record(*p)),
    decreases p,
{
    match p {
        Pat::Ident(i) => {
            push_header(result, IDENT, 0, i.span);
            Ok(())
        },
        Pat::Expr(e) => serialize_expr(result, e),
        Pat::Destructuring(s) => {
            push_header(result, INVALID, 0, *s);
            Ok(())
        },
    }
}

fn serialize_pats(result: &mut Vec<u8>, ps: &Vec<Pat>) -> (r: Result<(), EncodeError>)
    ensures
        r is Ok <==> all_fit(pats_records(ps@)),
        r is Ok ==> final(result)@ =~= old(result)@ + encode_records(pats_records(ps@)),
    decreases ps,
{
    let mut i: usize = 0;
    while i < ps.len()
        invariant
            0 <= i <= ps.len(),
            all_fit(pats_records(ps@.take(i as int))),
            result@ =~= old(result)@ + encode_records(pats_records(ps@.take(i as int))),
        decreases ps.len() - i,
    {
        proof {
            assert(ps@.take(i + 1).drop_last() =~= ps@.take(i as int));
        }
        let r = serialize_pat(result, &ps[i]);
        if r.is_err() {
            proof {
                lemma_pats_records(ps@, i + 1);
            }
            return r;
        }
        i += 1;
    }
    assert(ps@.take(i as int) =~= ps@);
    Ok(())
}

/// One binding: the bound name, then the initializer when present.
#[verifier::rlimit(100)]
fn serialize_declarator(result: &mut Vec<u8>, d: &VarDeclarator) -> (r: Result<(), EncodeError>)
    ensures
        r is Ok <==> fits(declarator_record(*d)),
        r is Ok ==> final(result)@ =~= old(result)@ + encode_record(declarator_record(*d)),
    decreases d,
{
    match &d.init {
        Some(init) => {
            proof {
                lemma_node_two(declarator_record(*d), pat_record(d.name), expr_record(**init));
            }
            push_header(result, VAR_DECLARATOR, 2, d.span);
            if let Err(e) = serialize_pat(result, &d.name) {
                return Err(e);
            }
            assert(result@ =~= old(result)@ + header(VAR_DECLARATOR, 2, d.span) + encode_record(
                pat_record(d.name),
            ));
            serialize_expr(result, init)
        },
        None => {
            proof {
                lemma_node_one(declarator_record(*d), pat_record(d.name));
            }
            push_header(result, VAR_DECLARATOR, 1, d.span);
            serialize_pat(result, &d.name)
        },
    }
}

/// A declaration list of kind `VAR` or `USING`: one declarator record per
/// binding, each with the bound name and then the initializer, if any.
#[verifier::rlimit(100)]
fn serialize_var_decl(result: &mut Vec<u8>, kind: u8, d: &VarDecl) -> (r: Result<
    (),
    EncodeError,
>)
    ensures
        r is Ok <==> fits(var_decl_record(kind, *d)),
        r is Ok ==> final(result)@ =~= old(result)@ + encode_record(var_decl_record(kind, *d)),
    decreases d,
{
    let ds = &d.decls;
    proof {
        lemma_declarators_records(ds@, 0);
    }
    if let Err(e) = push_node(result, kind, ds.len() as u128, d.span) {
        return Err(e);
    }
    let ghost start = result@;
    let mut i: usize = 0;
    while i < ds.len()
        invariant
            0 <= i <= ds.len(),
            ds == &d.decls,
            all_fit(declarators_records(ds@.take(i as int))),
            result@ =~= start + encode_records(declarators_records(ds@.take(i as int))),
        decreases ds.len() - i,
    {
        proof {
            assert(ds@.take(i + 1).drop_last() =~= ds@.take(i as int));
        }
        let r = serialize_declarator(result, &ds[i]);
        if r.is_err() {
            proof {
                lemma_declarators_records(ds@, i + 1);
            }
            return r;
        }
        i += 1;
    }
    assert(ds@.take(i as int) =~= ds@);
    Ok(())
}

#[verifier::rlimit(100)]
fn serialize_decl(result: &mut Vec<u8>, d: &Decl) -> (r: Result<(), EncodeError>)
    ensures
        r is Ok <==> fits(decl_record(*d)),
        r is Ok ==> final(result)@ =~= old(result)@ + encode_record(decl_record(*d)),
    decreases d,
{
    match d {
        Decl::Fn { span, body } => match body {
            Some(b) => {
                proof {
                    lemma_node_one(decl_record(*d), block_record(*b));
                }
                push_header(result, FN, 1, *span);
                serialize_block(result, b)
            },
            None => {
                proof {
                    lemma_leaf(decl_record(*d));
                }
                push_header(result, FN, 0, *span);
                Ok(())
            },
        },
        Decl::Var(v) => serialize_var_decl(result, VAR, v),
        Decl::Using(v) => serialize_var_decl(result, USING, v),
        _ => {
            let (kind, span) = match d {
                Decl::Class(s) => (CLASS, *s),
                Decl::TsInterface(s) => (TS_INTERFACE, *s),
                Decl::TsTypeAlias(s) => (TS_TYPE_ALIAS, *s),
                Decl::TsEnum(s) => (TS_ENUM, *s),
                Decl::TsModule(s) => (TS_MODULE, *s),
                Decl::Fn { span, .. } => (FN, *span),
                Decl::Var(v) => (VAR, v.span),
                Decl::Using(v) => (USING, v.span),
            };
            proof {
                lemma_leaf(decl_record(*d));
            }
            push_header(result, kind, 0, span);
            Ok(())
        },
    }
}

/// Writes an expression in a slot that must always hold a record: an empty
/// placeholder at `span` stands for an absent expression.
fn serialize_slot(result: &mut Vec<u8>, e: &Option<Box<Expr>>, span: Span) -> (r: Result<
    (),
    EncodeError,
>)
    ensures
        r is Ok <==> fits(slot_record(*e, span)),
        r is Ok ==> final(result)@ =~= old(result)@ + encode_record(
            slot_record(*e, span),
        ),
    decreases e,
{
    match e {
        Some(x) => serialize_expr(result, x),
        None => {
            push_header(result, EMPTY_EXPR, 0, span);
            Ok(())
        },
    }
}

fn serialize_for_head(result: &mut Vec<u8>, h: &ForHead) -> (r: Result<(), EncodeError>)
    ensures
        r is Ok <==> fits(for_head_record(*h)),
        r is Ok ==> final(result)@ =~= old(result)@ + encode_record(
            for_head_record(*h),
        ),
    decreases h,
{
    match h {
        ForHead::VarDecl(d) => serialize_var_decl(result, VAR, d),
        ForHead::UsingDecl(d) => serialize_var_decl(result, USING, d),
        ForHead::Pat(p) => serialize_pat(result, p),
    }
}

#[verifier::rlimit(100)]
fn serialize_stmt(result: &mut Vec<u8>, s: &Stmt) -> (r: Result<(), EncodeError>)
    ensures
        r is Ok <==> fits(stmt_record(*s)),
        r is Ok ==> final(result)@ =~= old(result)@ + encode_record(stmt_record(*s)),
    decreases s, 2nat,
{
    match s {
        Stmt::Block(b) => serialize_block(result, b),
        Stmt::Empty(sp) => {
            push_header(result, EMPTY, 0, *sp);
            Ok(())
        },
        Stmt::Debugger(sp) => {
            push_header(result, DEBUGGER, 0, *sp);
            Ok(())
        },
        Stmt::Decl(d) => serialize_decl(result, d),
        Stmt::With { .. } | Stmt::Return { .. } | Stmt::Labeled { .. } | Stmt::Break { .. } | Stmt::Continue { .. } | Stmt::Throw { .. } | Stmt::Expr { .. } => serialize_jump_stmt(result, s),
        Stmt::If { .. } | Stmt::Switch { .. } | Stmt::Try { .. } => serialize_branch_stmt(result, s),
        Stmt::While { .. } | Stmt::DoWhile { .. } | Stmt::For { .. } | Stmt::ForIn { .. } | Stmt::ForOf { .. } => serialize_loop_stmt(result, s),
    }
}


fn count_spreads(args: &Vec<ExprOrSpread>) -> (k: usize)
    ensures
        k == spread_count(args@),
        k <= args.len(),
{
    let mut k: usize = 0;
    let mut i: usize = 0;
    while i < args.len()
        invariant
            0 <= k <= i <= args.len(),
            k == spread_count(args@.take(i as int)),
        decreases args.len() - i,
    {
        proof {
            assert(args@.take(i + 1).drop_last() =~= args@.take(i as int));
        }
        if args[i].spread.is_some() {
            k = k + 1;
        }
        i += 1;
    }
    assert(args@.take(i as int) =~= args@);
    k
}

/// One argument: a `SPREAD` marker leaf first when it is spread, then the
/// argument's expression.
fn serialize_arg(result: &mut Vec<u8>, a: &ExprOrSpread) -> (r: Result<(), EncodeError>)
    ensures
        r is Ok <==> all_fit(arg_records(*a)),
        r is Ok ==> final(result)@ =~= old(result)@ + encode_records(arg_records(*a)),
    decreases a,
{
    if let Some(dot3) = a.spread {
        push_header(result, SPREAD, 0, dot3);
    }
    serialize_expr(result, &a.expr)
}

fn serialize_args(result: &mut Vec<u8>, args: &Vec<ExprOrSpread>) -> (r: Result<
    (),
    EncodeError,
>)
    ensures
        r is Ok <==> all_fit(args_records(args@)),
        r is Ok ==> final(result)@ =~= old(result)@ + encode_records(args_records(args@)),
    decreases args,
{
    let mut i: usize = 0;
    while i < args.len()
        invariant
            0 <= i <= args.len(),
            all_fit(args_records(args@.take(i as int))),
            result@ =~= old(result)@ + encode_records(args_records(args@.take(i as int))),
        decreases args.len() - i,
    {
        proof {
            assert(args@.take(i + 1).drop_last() =~= args@.take(i as int));
            lemma_concat(args_records(args@.take(i as int)), arg_records(args@[i as int]));
        }
        let r = serialize_arg(result, &args[i]);
        if r.is_err() {
            proof {
                lemma_args_records(args@, i + 1);
            }
            return r;
        }
        i += 1;
    }
    assert(args@.take(i as int) =~= args@);
    Ok(())
}

/// One array element: a spread element is a `SPREAD` record wrapping its value.
fn serialize_elem(result: &mut Vec<u8>, elem: &Option<ExprOrSpread>, span: Span) -> (r: Result<
    (),
    EncodeError,
>)
    ensures
        r is Ok <==> fits(elem_record(*elem, span)),
        r is Ok ==> final(result)@ =~= old(result)@ + encode_record(elem_record(*elem, span)),
    decreases elem,
{
    match elem {
        Some(a) => match a.spread {
            Some(dot3) => {
                proof {
                    lemma_node_one(elem_record(*elem, span), expr_record(*a.expr));
                }
                push_header(result, SPREAD, 1, dot3);
                serialize_expr(result, &a.expr)
            },
            None => serialize_expr(result, &a.expr),
        },
        None => {
            proof {
                lemma_leaf(elem_record(*elem, span));
            }
            push_header(result, EMPTY_EXPR, 0, span);
            Ok(())
        },
    }
}

fn serialize_elems(result: &mut Vec<u8>, elems: &Vec<Option<ExprOrSpread>>, span: Span) -> (r:
    Result<(), EncodeError>)
    ensures
        r is Ok <==> all_fit(elems_records(elems@, span)),
        r is Ok ==> final(result)@ =~= old(result)@ + encode_records(elems_records(elems@, span)),
    decreases elems,
{
    let mut i: usize = 0;
    while i < elems.len()
        invariant
            0 <= i <= elems.len(),
            all_fit(elems_records(elems@.take(i as int), span)),
            result@ =~= old(result)@ + encode_records(elems_records(elems@.take(i as int), span)),
        decreases elems.len() - i,
    {
        proof {
            assert(elems@.take(i + 1).drop_last() =~= elems@.take(i as int));
        }
        let r = serialize_elem(result, &elems[i], span);
        if r.is_err() {
            proof {
                lemma_elems_records(elems@, span, i + 1);
            }
            return r;
        }
        i += 1;
    }
    assert(elems@.take(i as int) =~= elems@);
    Ok(())
}

#[verifier::rlimit(100)]
fn serialize_prop(result: &mut Vec<u8>, p: &PropOrSpread) -> (r: Result<(), EncodeError>)
    ensures
        r is Ok <==> fits(prop_record(*p)),
        r is Ok ==> final(result)@ =~= old(result)@ + encode_record(prop_record(*p)),
    decreases p,
{
    match p {
        PropOrSpread::Spread { dot3, expr } => {
            proof {
                lemma_node_one(prop_record(*p), expr_record(**expr));
            }
            push_header(result, SPREAD, 1, *dot3);
            serialize_expr(result, expr)
        },
        PropOrSpread::Prop(Prop::Shorthand(i)) => {
            proof {
                lemma_leaf(prop_record(*p));
            }
            push_header(result, IDENT, 0, i.span);
            Ok(())
        },
        PropOrSpread::Prop(Prop::KeyValue(v)) => serialize_expr(result, v),
        PropOrSpread::Prop(Prop::Assign { span, key, value }) => {
            proof {
                lemma_node_two(prop_record(*p), ident_record(*key), expr_record(**value));
                lemma_leaf(ident_record(*key));
            }
            push_header(result, ASSIGN, 2, *span);
            push_header(result, IDENT, 0, key.span);
            assert(result@ =~= old(result)@ + header(ASSIGN, 2, *span) + encode_record(
                ident_record(*key),
            ));
            serialize_expr(result, value)
        },
        PropOrSpread::Prop(Prop::Method { span, body }) => match body {
            Some(b) => serialize_block(result, b),
            None => {
                proof {
                    lemma_leaf(prop_record(*p));
                }
                push_header(result, EMPTY_EXPR, 0, *span);
                Ok(())
            },
        },
    }
}

fn serialize_props(result: &mut Vec<u8>, ps: &Vec<PropOrSpread>) -> (r: Result<
    (),
    EncodeError,
>)
    ensures
        r is Ok <==> all_fit(props_records(ps@)),
        r is Ok ==> final(result)@ =~= old(result)@ + encode_records(props_records(ps@)),
    decreases ps,
{
    let mut i: usize = 0;
    while i < ps.len()
        invariant
            0 <= i <= ps.len(),
            all_fit(props_records(ps@.take(i as int))),
            result@ =~= old(result)@ + encode_records(props_records(ps@.take(i as int))),
        decreases ps.len() - i,
    {
        proof {
            assert(ps@.take(i + 1).drop_last() =~= ps@.take(i as int));
        }
        let r = serialize_prop(result, &ps[i]);
        if r.is_err() {
            proof {
                lemma_props_records(ps@, i + 1);
            }
            return r;
        }
        i += 1;
    }
    assert(ps@.take(i as int) =~= ps@);
    Ok(())
}

fn serialize_exprs(result: &mut Vec<u8>, es: &Vec<Expr>) -> (r: Result<(), EncodeError>)
    ensures
        r is Ok <==> all_fit(exprs_records(es@)),
        r is Ok ==> final(result)@ =~= old(result)@ + encode_records(exprs_records(es@)),
    decreases es,
{
    let mut i: usize = 0;
    while i < es.len()
        invariant
            0 <= i <= es.len(),
            all_fit(exprs_records(es@.take(i as int))),
            result@ =~= old(result)@ + encode_records(exprs_records(es@.take(i as int))),
        decreases es.len() - i,
    {
        proof {
            assert(es@.take(i + 1).drop_last() =~= es@.take(i as int));
        }
        let r = serialize_expr(result, &es[i]);
        if r.is_err() {
            proof {
                lemma_exprs_records(es@, i + 1);
            }
            return r;
        }
        i += 1;
    }
    assert(es@.take(i as int) =~= es@);
    Ok(())
}

fn serialize_member_prop(result: &mut Vec<u8>, p: &MemberProp) -> (r: Result<(), EncodeError>)
    ensures
        r is Ok <==> fits(member_prop_record(*p)),
        r is Ok ==> final(result)@ =~= old(result)@ + encode_record(member_prop_record(*p)),
    decreases p,
{
    match p {
        MemberProp::Ident(i) => {
            push_header(result, IDENT, 0, i.span);
            Ok(())
        },
        MemberProp::PrivateName(s) => {
            push_header(result, PRIVATE_NAME, 0, *s);
            Ok(())
        },
        MemberProp::Computed(e) => serialize_expr(result, e),
    }
}

fn serialize_lit(result: &mut Vec<u8>, l: &Lit)
    ensures
        fits(crate::shape::lit_record(*l)),
        final(result)@ =~= old(result)@ + encode_record(crate::shape::lit_record(*l)),
{
    let (kind, span) = match l {
        Lit::Str(s) => (STRING_LITERAL, *s),
        Lit::Bool(s) => (BOOL, *s),
        Lit::Null(s) => (NULL, *s),
        Lit::Num(s) => (NUM, *s),
        Lit::BigInt(s) => (BIG_INT, *s),
        Lit::Regex(s) => (REGEX, *s),
        Lit::JSXText(s) => (JSX_TEXT, *s),
    };
    push_header(result, kind, 0, span);
}

/// A type annotation in a child slot: a leaf that keeps its siblings' positions.
fn serialize_ts_type(result: &mut Vec<u8>, span: Span)
    ensures
        final(result)@ =~= old(result)@ + encode_record(leaf(TS_TYPE, span)),
{
    push_header(result, TS_TYPE, 0, span);
}

/// Writes the node's header, then its single child.
fn serialize_unary(result: &mut Vec<u8>, kind: u8, span: Span, e: &Expr) -> (r: Result<
    (),
    EncodeError,
>)
    ensures
        r is Ok <==> fits(expr_record(*e)),
        r is Ok ==> final(result)@ =~= old(result)@ + header(kind, 1, span) + encode_record(
            expr_record(*e),
        ),
    decreases e, 3nat,
{
    push_header(result, kind, 1, span);
    serialize_expr(result, e)
}

#[verifier::rlimit(100)]
fn serialize_expr(result: &mut Vec<u8>, e: &Expr) -> (r: Result<(), EncodeError>)
    ensures
        r is Ok <==> fits(expr_record(*e)),
        r is Ok ==> final(result)@ =~= old(result)@ + encode_record(expr_record(*e)),
    decreases e, 2nat,
{
    match e {
        Expr::Unary { span, arg } => {
            proof {
                lemma_node_one(expr_record(*e), expr_record(**arg));
            }
            serialize_unary(result, UNARY, *span, arg)
        },
        Expr::Update { span, arg } => {
            proof {
                lemma_node_one(expr_record(*e), expr_record(**arg));
            }
            serialize_unary(result, UPDATE, *span, arg)
        },
        Expr::Await { span, arg } => {
            proof {
                lemma_node_one(expr_record(*e), expr_record(**arg));
            }
            serialize_unary(result, AWAIT, *span, arg)
        },
        Expr::Paren { span, expr } => {
            proof {
                lemma_node_one(expr_record(*e), expr_record(**expr));
            }
            serialize_unary(result, SEQUENCE, *span, expr)
        },
        Expr::TsConstAssertion { span, expr } => {
            proof {
                lemma_node_one(expr_record(*e), expr_record(**expr));
            }
            serialize_unary(result, TS_CONST_ASSERTION, *span, expr)
        },
        Expr::TsNonNull { span, expr } => {
            proof {
                lemma_node_one(expr_record(*e), expr_record(**expr));
            }
            serialize_unary(result, TS_NON_NULL, *span, expr)
        },
        Expr::Yield { span, arg } => match arg {
            Some(a) => {
                proof {
                    lemma_node_one(expr_record(*e), expr_record(**a));
                }
                serialize_unary(result, YIELD, *span, a)
            },
            None => {
                proof {
                    lemma_leaf(expr_record(*e));
                }
                push_header(result, YIELD, 0, *span);
                Ok(())
            },
        },
        Expr::TsTypeAssertion { span, expr, type_ann } => {
            proof {
                lemma_node_two(expr_record(*e), expr_record(**expr), leaf(TS_TYPE, *type_ann));
            }
            serialize_annotated(result, TS_TYPE_ASSERTION, *span, expr, *type_ann)
        },
        Expr::TsAs { span, expr, type_ann } => {
            proof {
                lemma_node_two(expr_record(*e), expr_record(**expr), leaf(TS_TYPE, *type_ann));
            }
            serialize_annotated(result, TS_AS, *span, expr, *type_ann)
        },
        Expr::TsInstantiation { span, expr, type_args } => {
            proof {
                lemma_node_two(expr_record(*e), expr_record(**expr), leaf(TS_TYPE, *type_args));
            }
            serialize_annotated(result, TS_INSTANTIATION, *span, expr, *type_args)
        },
        Expr::TsSatisfies { span, expr, type_ann } => {
            proof {
                lemma_node_two(expr_record(*e), expr_record(**expr), leaf(TS_TYPE, *type_ann));
            }
            serialize_annotated(result, TS_SATISFIES, *span, expr, *type_ann)
        },
        Expr::Bin { .. } => serialize_operator_expr(result, e),
        Expr::Assign { .. } => serialize_operator_expr(result, e),
        Expr::Member { .. } => serialize_operator_expr(result, e),
        Expr::SuperProp { .. } => serialize_operator_expr(result, e),
        Expr::Cond { .. } => serialize_operator_expr(result, e),
        Expr::Call { .. } => serialize_call_expr(result, e),
        Expr::New { .. } => serialize_call_expr(result, e),
        Expr::Arrow { .. } => serialize_arrow_expr(result, e),
        Expr::Array { .. } => serialize_list_expr(result, e),
        Expr::Object { .. } => serialize_list_expr(result, e),
        Expr::Sequence { .. } => serialize_list_expr(result, e),
        Expr::Lit(l) => {
            serialize_lit(result, l);
            Ok(())
        },
        Expr::Ident(i) => {
            proof {
                lemma_leaf(expr_record(*e));
            }
            push_header(result, IDENT, 0, i.span);
            Ok(())
        },
        _ => {
            serialize_leaf_expr(result, e);
            Ok(())
        },
    }
}

/// Expressions whose substructure is not encoded: one record with no children.
#[verifier::rlimit(100)]
fn serialize_leaf_expr(result: &mut Vec<u8>, e: &Expr)
    requires
        e is This || e is Fn || e is Tpl || e is TaggedTpl || e is Class || e is MetaProp
            || e is JSXMember || e is JSXNamespacedName || e is JSXEmpty || e is JSXElement
            || e is JSXFragment || e is PrivateName || e is OptChain || e is Invalid,
    ensures
        fits(expr_record(*e)),
        final(result)@ =~= old(result)@ + encode_record(expr_record(*e)),
{
    let (kind, span) = match e {
        Expr::This(s) => (THIS, *s),
        Expr::Fn(s) => (FN_EXPR, *s),
        Expr::Tpl(s) => (TPL, *s),
        Expr::TaggedTpl(s) => (TAGGED_TPL, *s),
        Expr::Class(s) => (CLASS_EXPR, *s),
        Expr::MetaProp(s) => (META_PROP, *s),
        Expr::JSXMember(s) => (JSX_MEMBER, *s),
        Expr::JSXNamespacedName(s) => (JSX_NAMESPACED_NAME, *s),
        Expr::JSXEmpty(s) => (JSX_EMPTY, *s),
        Expr::JSXElement(s) => (JSX_ELEMENT, *s),
        Expr::JSXFragment(s) => (JSX_FRAGMENT, *s),
        Expr::PrivateName(s) => (PRIVATE_NAME, *s),
        Expr::OptChain(s) => (OPT_CHAIN, *s),
        Expr::Invalid(s) => (INVALID, *s),
        Expr::Lit(_) | Expr::Ident(_) => (INVALID, Span { lo: 0, hi: 0 }),
        _ => (INVALID, Span { lo: 0, hi: 0 }),
    };
    proof {
        lemma_leaf(expr_record(*e));
    }
    push_header(result, kind, 0, span);
}

/// Writes the node's header, then the expression, then its type annotation.
fn serialize_annotated(result: &mut Vec<u8>, kind: u8, span: Span, e: &Expr, ty: Span) -> (r:
    Result<(), EncodeError>)
    ensures
        r is Ok <==> fits(expr_record(*e)),
        r is Ok ==> final(result)@ =~= old(result)@ + header(kind, 2, span) + encode_record(
            expr_record(*e),
        ) + encode_record(leaf(TS_TYPE, ty)),
    decreases e, 3nat,
{
    push_header(result, kind, 2, span);
    if let Err(err) = serialize_expr(result, e) {
        return Err(err);
    }
    serialize_ts_type(result, ty);
    Ok(())
}


/// Statements with at most two fixed children.
#[verifier::rlimit(100)]
fn serialize_jump_stmt(result: &mut Vec<u8>, s: &Stmt) -> (r: Result<(), EncodeError>)
    requires
        s is With || s is Return || s is Labeled || s is Break || s is Continue || s is Throw
            || s is Expr,
    ensures
        r is Ok <==> fits(stmt_record(*s)),
        r is Ok ==> final(result)@ =~= old(result)@ + encode_record(stmt_record(*s)),
    decreases s, 1nat,
{
    match s {
        Stmt::With { span, obj, body } => {
            proof {
                lemma_node_two(stmt_record(*s), expr_record(**obj), stmt_record(**body));
            }
            push_header(result, WITH, 2, *span);
            if let Err(e) = serialize_expr(result, obj) {
                return Err(e);
            }
            assert(result@ =~= old(result)@ + header(WITH, 2, *span) + encode_record(
                expr_record(**obj),
            ));
            serialize_stmt(result, body)
        },
        Stmt::Return { span, arg } => match arg {
            Some(a) => {
                proof {
                    lemma_node_one(stmt_record(*s), expr_record(**a));
                }
                push_header(result, RETURN, 1, *span);
                serialize_expr(result, a)
            },
            None => {
                proof {
                    lemma_leaf(stmt_record(*s));
                }
                push_header(result, RETURN, 0, *span);
                Ok(())
            },
        },
        Stmt::Labeled { span, body } => {
            proof {
                lemma_node_one(stmt_record(*s), stmt_record(**body));
            }
            push_header(result, LABELED, 1, *span);
            serialize_stmt(result, body)
        },
        Stmt::Break { span, label } => {
            serialize_jump_label(result, BREAK, *span, label);
            Ok(())
        },
        Stmt::Continue { span, label } => {
            serialize_jump_label(result, CONTINUE, *span, label);
            Ok(())
        },
        Stmt::Throw { span, arg } => {
            proof {
                lemma_node_one(stmt_record(*s), expr_record(**arg));
            }
            push_header(result, THROW, 1, *span);
            serialize_expr(result, arg)
        },
        Stmt::Expr { span, expr } => {
            proof {
                lemma_node_one(stmt_record(*s), expr_record(**expr));
            }
            push_header(result, EXPR, 1, *span);
            serialize_expr(result, expr)
        },
        _ => Ok(()),
    }
}

/// A `break` or `continue`: the label, when present, is its one child.
fn serialize_jump_label(result: &mut Vec<u8>, kind: u8, span: Span, label: &Option<Ident>)
    ensures
        fits(jump_record(kind, span, *label)),
        final(result)@ =~= old(result)@ + encode_record(jump_record(kind, span, *label)),
{
    match label {
        Some(l) => {
            proof {
                lemma_node_one(jump_record(kind, span, *label), ident_record(*l));
                lemma_leaf(ident_record(*l));
            }
            push_header(result, kind, 1, span);
            push_header(result, IDENT, 0, l.span);
        },
        None => {
            proof {
                lemma_leaf(jump_record(kind, span, *label));
            }
            push_header(result, kind, 0, span);
        },
    }
}

/// Conditional and exception-handling statements.
#[verifier::rlimit(100)]
fn serialize_branch_stmt(result: &mut Vec<u8>, s: &Stmt) -> (r: Result<(), EncodeError>)
    requires
        s is If || s is Switch || s is Try,
    ensures
        r is Ok <==> fits(stmt_record(*s)),
        r is Ok ==> final(result)@ =~= old(result)@ + encode_record(stmt_record(*s)),
    decreases s, 1nat,
{
    match s {
        Stmt::If { span, test, cons, alt } => match alt {
            Some(a) => {
                proof {
                    lemma_node_three(
                        stmt_record(*s),
                        expr_record(**test),
                        stmt_record(**cons),
                        stmt_record(**a),
                    );
                }
                push_header(result, IF, 3, *span);
                if let Err(e) = serialize_expr(result, test) {
                    return Err(e);
                }
                let ghost mid = result@;
                assert(mid =~= old(result)@ + header(IF, 3, *span) + encode_record(
                    expr_record(**test),
                ));
                if let Err(e) = serialize_stmt(result, cons) {
                    return Err(e);
                }
                assert(result@ =~= mid + encode_record(stmt_record(**cons)));
                serialize_stmt(result, a)
            },
            None => {
                proof {
                    lemma_node_two(stmt_record(*s), expr_record(**test), stmt_record(**cons));
                }
                push_header(result, IF, 2, *span);
                if let Err(e) = serialize_expr(result, test) {
                    return Err(e);
                }
                assert(result@ =~= old(result)@ + header(IF, 2, *span) + encode_record(
                    expr_record(**test),
                ));
                serialize_stmt(result, cons)
            },
        },
        Stmt::Switch { span, cases } => {
            proof {
                lemma_cases_records(cases@, 0);
            }
            if let Err(e) = push_node(result, SWITCH, cases.len() as u128, *span) {
                return Err(e);
            }
            let r = serialize_cases(result, cases);
            assert(r is Ok ==> result@ =~= old(result)@ + encode_record(stmt_record(*s)));
            r
        },
        Stmt::Try { .. } => serialize_try(result, s),
        _ => Ok(()),
    }
}

/// A `try` statement: the block, then the catch body and the finally block
/// when present.
#[verifier::rlimit(100)]
fn serialize_try(result: &mut Vec<u8>, s: &Stmt) -> (r: Result<(), EncodeError>)
    requires
        s is Try,
    ensures
        r is Ok <==> fits(stmt_record(*s)),
        r is Ok ==> final(result)@ =~= old(result)@ + encode_record(stmt_record(*s)),
    decreases s, 0nat,
{
    let (span, block, handler, finalizer) = match s {
        Stmt::Try { span, block, handler, finalizer } => (*span, block, handler, finalizer),
        _ => {
            return Ok(());
        },
    };
    let ghost rec = stmt_record(*s);
    let mut count: u32 = 1;
    if handler.is_some() {
        count = count + 1;
    }
    if finalizer.is_some() {
        count = count + 1;
    }
    push_header(result, TRY, count, span);
    let r0 = serialize_block(result, block);
    match handler {
        Some(h) => {
            match finalizer {
                Some(f) => {
                    proof {
                        lemma_node_three(rec, block_record(*block), block_record(*h), block_record(*f));
                    }
                    if let Err(e) = r0 {
                        return Err(e);
                    }
                    let ghost mid = result@;
                    assert(mid =~= old(result)@ + header(TRY, 3, span) + encode_record(
                        block_record(*block),
                    ));
                    if let Err(e) = serialize_block(result, h) {
                        return Err(e);
                    }
                    assert(result@ =~= mid + encode_record(block_record(*h)));
                    serialize_block(result, f)
                },
                None => {
                    proof {
                        lemma_node_two(rec, block_record(*block), block_record(*h));
                    }
                    if let Err(e) = r0 {
                        return Err(e);
                    }
                    assert(result@ =~= old(result)@ + header(TRY, 2, span) + encode_record(
                        block_record(*block),
                    ));
                    serialize_block(result, h)
                },
            }
        },
        None => {
            match finalizer {
                Some(f) => {
                    proof {
                        lemma_node_two(rec, block_record(*block), block_record(*f));
                    }
                    if let Err(e) = r0 {
                        return Err(e);
                    }
                    assert(result@ =~= old(result)@ + header(TRY, 2, span) + encode_record(
                        block_record(*block),
                    ));
                    serialize_block(result, f)
                },
                None => {
                    proof {
                        lemma_node_one(rec, block_record(*block));
                    }
                    r0
                },
            }
        },
    }
}

/// Loop statements.
#[verifier::rlimit(100)]
fn serialize_loop_stmt(result: &mut Vec<u8>, s: &Stmt) -> (r: Result<(), EncodeError>)
    requires
        s is While || s is DoWhile || s is For || s is ForIn || s is ForOf,
    ensures
        r is Ok <==> fits(stmt_record(*s)),
        r is Ok ==> final(result)@ =~= old(result)@ + encode_record(stmt_record(*s)),
    decreases s, 1nat,
{
    match s {
        Stmt::While { span, test, body } => {
            proof {
                lemma_node_two(stmt_record(*s), expr_record(**test), stmt_record(**body));
            }
            push_header(result, WHILE, 2, *span);
            if let Err(e) = serialize_expr(result, test) {
                return Err(e);
            }
            assert(result@ =~= old(result)@ + header(WHILE, 2, *span) + encode_record(
                expr_record(**test),
            ));
            serialize_stmt(result, body)
        },
        Stmt::DoWhile { span, test, body } => {
            proof {
                lemma_node_two(stmt_record(*s), expr_record(**test), stmt_record(**body));
            }
            push_header(result, DO_WHILE, 2, *span);
            if let Err(e) = serialize_expr(result, test) {
                return Err(e);
            }
            assert(result@ =~= old(result)@ + header(DO_WHILE, 2, *span) + encode_record(
                expr_record(**test),
            ));
            serialize_stmt(result, body)
        },
        Stmt::For { span, init, test, update, body } => {
            proof {
                lemma_node_four(
                    stmt_record(*s),
                    for_init_record(*init, *span),
                    slot_record(*test, *span),
                    slot_record(*update, *span),
                    stmt_record(**body),
                );
            }
            push_header(result, FOR, 4, *span);
            if let Err(e) = serialize_for_init(result, init, *span) {
                return Err(e);
            }
            let ghost m1 = result@;
            assert(m1 =~= old(result)@ + header(FOR, 4, *span) + encode_record(
                for_init_record(*init, *span),
            ));
            if let Err(e) = serialize_slot(result, test, *span) {
                return Err(e);
            }
            let ghost m2 = result@;
            assert(m2 =~= m1 + encode_record(slot_record(*test, *span)));
            if let Err(e) = serialize_slot(result, update, *span) {
                return Err(e);
            }
            assert(result@ =~= m2 + encode_record(slot_record(*update, *span)));
            serialize_stmt(result, body)
        },
        Stmt::ForIn { span, left, right, body } => {
            proof {
                lemma_node_three(
                    stmt_record(*s),
                    for_head_record(*left),
                    expr_record(**right),
                    stmt_record(**body),
                );
            }
            push_header(result, FOR_IN, 3, *span);
            if let Err(e) = serialize_for_head(result, left) {
                return Err(e);
            }
            let ghost m1 = result@;
            assert(m1 =~= old(result)@ + header(FOR_IN, 3, *span) + encode_record(
                for_head_record(*left),
            ));
            if let Err(e) = serialize_expr(result, right) {
                return Err(e);
            }
            assert(result@ =~= m1 + encode_record(expr_record(**right)));
            serialize_stmt(result, body)
        },
        Stmt::ForOf { span, left, right, body } => {
            proof {
                lemma_node_three(
                    stmt_record(*s),
                    for_head_record(*left),
                    expr_record(**right),
                    stmt_record(**body),
                );
            }
            push_header(result, FOR_OF, 3, *span);
            if let Err(e) = serialize_for_head(result, left) {
                return Err(e);
            }
            let ghost m1 = result@;
            assert(m1 =~= old(result)@ + header(FOR_OF, 3, *span) + encode_record(
                for_head_record(*left),
            ));
            if let Err(e) = serialize_expr(result, right) {
                return Err(e);
            }
            assert(result@ =~= m1 + encode_record(expr_record(**right)));
            serialize_stmt(result, body)
        },
        _ => Ok(()),
    }
}

/// The first slot of a `for` loop: a declaration, an expression, or an empty
/// placeholder at the loop's span.
fn serialize_for_init(result: &mut Vec<u8>, init: &Option<ForInit>, span: Span) -> (r: Result<
    (),
    EncodeError,
>)
    ensures
        r is Ok <==> fits(for_init_record(*init, span)),
        r is Ok ==> final(result)@ =~= old(result)@ + encode_record(for_init_record(*init, span)),
    decreases init,
{
    match init {
        Some(ForInit::VarDecl(d)) => serialize_var_decl(result, VAR, d),
        Some(ForInit::Expr(x)) => serialize_expr(result, x),
        None => {
            proof {
                lemma_leaf(for_init_record(*init, span));
            }
            push_header(result, EMPTY_EXPR, 0, span);
            Ok(())
        },
    }
}

/// Operators and member accesses.
#[verifier::rlimit(100)]
fn serialize_operator_expr(result: &mut Vec<u8>, e: &Expr) -> (r: Result<(), EncodeError>)
    requires
        e is Bin || e is Assign || e is Member || e is SuperProp || e is Cond,
    ensures
        r is Ok <==> fits(expr_record(*e)),
        r is Ok ==> final(result)@ =~= old(result)@ + encode_record(expr_record(*e)),
    decreases e, 1nat,
{
    match e {
        Expr::Bin { span, left, right } => {
            proof {
                lemma_node_two(expr_record(*e), expr_record(**left), expr_record(**right));
            }
            push_header(result, BIN, 2, *span);
            if let Err(err) = serialize_expr(result, left) {
                return Err(err);
            }
            assert(result@ =~= old(result)@ + header(BIN, 2, *span) + encode_record(expr_record(**left)));
            serialize_expr(result, right)
        },
        Expr::Assign { span, left, right } => {
            proof {
                lemma_node_two(expr_record(*e), pat_record(*left), expr_record(**right));
            }
            push_header(result, ASSIGN, 2, *span);
            if let Err(err) = serialize_pat(result, left) {
                return Err(err);
            }
            assert(result@ =~= old(result)@ + header(ASSIGN, 2, *span) + encode_record(pat_record(*left)));
            serialize_expr(result, right)
        },
        Expr::Member { span, obj, prop } => {
            proof {
                lemma_node_two(expr_record(*e), expr_record(**obj), member_prop_record(*prop));
            }
            push_header(result, MEMBER, 2, *span);
            if let Err(err) = serialize_expr(result, obj) {
                return Err(err);
            }
            assert(result@ =~= old(result)@ + header(MEMBER, 2, *span) + encode_record(expr_record(**obj)));
            serialize_member_prop(result, prop)
        },
        Expr::SuperProp { span, obj, prop } => {
            proof {
                lemma_node_two(expr_record(*e), leaf(SUPER, *obj), member_prop_record(*prop));
                lemma_leaf(leaf(SUPER, *obj));
            }
            push_header(result, SUPER_PROP, 2, *span);
            push_header(result, SUPER, 0, *obj);
            assert(result@ =~= old(result)@ + header(SUPER_PROP, 2, *span) + encode_record(
                leaf(SUPER, *obj),
            ));
            serialize_member_prop(result, prop)
        },
        Expr::Cond { span, test, cons, alt } => {
            proof {
                lemma_node_three(
                    expr_record(*e),
                    expr_record(**test),
                    expr_record(**cons),
                    expr_record(**alt),
                );
            }
            push_header(result, COND, 3, *span);
            if let Err(err) = serialize_expr(result, test) {
                return Err(err);
            }
            let ghost mid = result@;
            assert(mid =~= old(result)@ + header(COND, 3, *span) + encode_record(
                expr_record(**test),
            ));
            if let Err(err) = serialize_expr(result, cons) {
                return Err(err);
            }
            assert(result@ =~= mid + encode_record(expr_record(**cons)));
            serialize_expr(result, alt)
        },
        _ => Ok(()),
    }
}

/// Calls and constructor calls: the callee, then each argument, each spread
/// argument preceded by a `SPREAD` marker.
#[verifier::rlimit(100)]
fn serialize_call_expr(result: &mut Vec<u8>, e: &Expr) -> (r: Result<(), EncodeError>)
    requires
        e is Call || e is New,
    ensures
        r is Ok <==> fits(expr_record(*e)),
        r is Ok ==> final(result)@ =~= old(result)@ + encode_record(expr_record(*e)),
    decreases e, 1nat,
{
    match e {
        Expr::Call { span, callee, args } => {
            let ghost c = match callee {
                Callee::Super(s) => leaf(SUPER, *s),
                Callee::Import(s) => leaf(IMPORT, *s),
                Callee::Expr(x) => expr_record(**x),
            };
            proof {
                lemma_args_records(args@, 0);
                lemma_concat(seq![c], args_records(args@));
            }
            let k = count_spreads(args);
            if let Err(err) = push_node(result, CALL, 1 + args.len() as u128 + k as u128, *span) {
                return Err(err);
            }
            let r = match callee {
                Callee::Super(s) => {
                    push_header(result, SUPER, 0, *s);
                    Ok(())
                },
                Callee::Import(s) => {
                    push_header(result, IMPORT, 0, *s);
                    Ok(())
                },
                Callee::Expr(x) => serialize_expr(result, x),
            };
            if let Err(err) = r {
                proof {
                    lemma_unfit_child(expr_record(*e), 0);
                }
                return Err(err);
            }
            serialize_args(result, args)
        },
        Expr::New { span, callee, args, type_args } => {
            let ghost a = match args {
                Some(v) => args_records(v@),
                None => Seq::<Record>::empty(),
            };
            let ghost t = crate::shape::opt_type_records(*type_args);
            proof {
                lemma_concat(seq![expr_record(**callee)], a);
                lemma_concat(seq![expr_record(**callee)] + a, t);
            }
            let mut count: u128 = 1;
            if let Some(v) = args {
                proof {
                    lemma_args_records(v@, 0);
                }
                let k = count_spreads(v);
                count = count + v.len() as u128 + k as u128;
            }
            if type_args.is_some() {
                count = count + 1;
            }
            if let Err(err) = push_node(result, NEW, count, *span) {
                return Err(err);
            }
            if let Err(err) = serialize_expr(result, callee) {
                proof {
                    lemma_unfit_child(expr_record(*e), 0);
                }
                return Err(err);
            }
            if let Some(v) = args {
                if let Err(err) = serialize_args(result, v) {
                    return Err(err);
                }
            }
            if let Some(ta) = type_args {
                serialize_ts_type(result, *ta);
            }
            Ok(())
        },
        _ => Ok(()),
    }
}

/// Arrow functions: each parameter, the body, then the return type and the
/// type parameters when present.
#[verifier::rlimit(100)]
fn serialize_arrow_expr(result: &mut Vec<u8>, e: &Expr) -> (r: Result<(), EncodeError>)
    requires
        e is Arrow,
    ensures
        r is Ok <==> fits(expr_record(*e)),
        r is Ok ==> final(result)@ =~= old(result)@ + encode_record(expr_record(*e)),
    decreases e, 1nat,
{
    match e {
        Expr::Arrow { span, params, body, return_type, type_params } => {
            let ghost b = crate::shape::arrow_body_record(**body);
            let ghost p = pats_records(params@);
            let ghost rt = crate::shape::opt_type_records(*return_type);
            let ghost tp = crate::shape::opt_type_records(*type_params);
            proof {
                lemma_pats_records(params@, 0);
                lemma_concat(p, seq![b]);
                lemma_concat(p + seq![b], rt);
                lemma_concat(p + seq![b] + rt, tp);
            }
            let mut count: u128 = 1 + params.len() as u128;
            if return_type.is_some() {
                count = count + 1;
            }
            if type_params.is_some() {
                count = count + 1;
            }
            if let Err(err) = push_node(result, ARROW, count, *span) {
                return Err(err);
            }
            if let Err(err) = serialize_pats(result, params) {
                return Err(err);
            }
            let r = match &**body {
                ArrowBody::Block(blk) => serialize_block(result, blk),
                ArrowBody::Expr(x) => serialize_expr(result, x),
            };
            if let Err(err) = r {
                proof {
                    lemma_unfit_child(expr_record(*e), params@.len() as int);
                }
                return Err(err);
            }
            if let Some(t) = return_type {
                serialize_ts_type(result, *t);
            }
            if let Some(t) = type_params {
                serialize_ts_type(result, *t);
            }
            Ok(())
        },
        _ => Ok(()),
    }
}

/// Array, object and sequence expressions.
#[verifier::rlimit(100)]
fn serialize_list_expr(result: &mut Vec<u8>, e: &Expr) -> (r: Result<(), EncodeError>)
    requires
        e is Array || e is Object || e is Sequence,
    ensures
        r is Ok <==> fits(expr_record(*e)),
        r is Ok ==> final(result)@ =~= old(result)@ + encode_record(expr_record(*e)),
    decreases e, 1nat,
{
    match e {
        Expr::Array { span, elems } => {
            proof {
                lemma_elems_records(elems@, *span, 0);
            }
            if let Err(err) = push_node(result, ARRAY, elems.len() as u128, *span) {
                return Err(err);
            }
            serialize_elems(result, elems, *span)
        },
        Expr::Object { span, props } => {
            proof {
                lemma_props_records(props@, 0);
            }
            if let Err(err) = push_node(result, OBJECT, props.len() as u128, *span) {
                return Err(err);
            }
            serialize_props(result, props)
        },
        Expr::Sequence { span, exprs } => {
            proof {
                lemma_exprs_records(exprs@, 0);
            }
            if let Err(err) = push_node(result, SEQUENCE, exprs.len() as u128, *span) {
                return Err(err);
            }
            serialize_exprs(result, exprs)
        },
        _ => Ok(()),
    }
}

} // verus!

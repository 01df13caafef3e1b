use vstd::prelude::*;

use crate::ast::{
    ArrowBody, BlockStmt, Callee, Decl, Expr, ExprOrSpread, ForHead, ForInit, Ident, Lit, MemberProp, ModuleDecl, ModuleItem, Pat, Program, Prop, PropOrSpread, Stmt, SwitchCase, VarDecl, VarDeclarator,
};
use crate::kind::{
    SUPER,
    INVALID, PROGRAM, IMPORT, EXPORT_DECL, EXPORT_NAMED, EXPORT_DEFAULT_DECL, EXPORT_DEFAULT_EXPR, EXPORT_ALL, TS_IMPORT_EQUALS, TS_EXPORT_ASSIGNMENT, TS_NAMESPACE_EXPORT, CLASS, FN, VAR, USING, TS_INTERFACE, TS_TYPE_ALIAS, TS_ENUM, TS_MODULE, BLOCK, EMPTY, DEBUGGER, WITH, RETURN, LABELED, BREAK, CONTINUE, IF, SWITCH, SWITCH_CASE, THROW, TRY, WHILE, DO_WHILE, FOR, FOR_IN, FOR_OF, EXPR, THIS, ARRAY, OBJECT, FN_EXPR, UNARY, UPDATE, BIN, ASSIGN, MEMBER, SUPER_PROP, COND, CALL, NEW, SEQUENCE, IDENT, TPL, TAGGED_TPL, ARROW, CLASS_EXPR, YIELD, META_PROP, AWAIT, TS_TYPE_ASSERTION, TS_CONST_ASSERTION, TS_NON_NULL, TS_AS, TS_INSTANTIATION, TS_SATISFIES, PRIVATE_NAME, OPT_CHAIN, STRING_LITERAL, BOOL, NULL, NUM, BIG_INT, REGEX, JSX_MEMBER, JSX_NAMESPACED_NAME, JSX_EMPTY, JSX_ELEMENT, JSX_FRAGMENT, JSX_TEXT, EMPTY_EXPR, SPREAD, VAR_DECLARATOR, TS_TYPE,
};
use crate::record::{
    all_fit, encode_record, leaf, lemma_all_fit_concat, lemma_all_fit_empty, lemma_all_fit_push, Record, Span,
};

verus! {

// The record tree of each syntax node: its kind, its span, and its children
// in the order in which they follow it in the buffer.

pub open spec fn node(kind: u8, span: Span, children: Seq<Record>) -> Record {
    Record { kind, span, children }
}

pub open spec fn program_record(p: Program) -> Record {
    match p {
        Program::Module { span, body } => node(PROGRAM, span, module_items_records(body@)),
        Program::Script { span, body } => node(PROGRAM, span, stmts_records(body@)),
    }
}

/// The complete encoding of a program.
pub open spec fn program_bytes(p: Program) -> Seq<u8> {
    encode_record(program_record(p))
}

pub open spec fn module_decl_record(d: ModuleDecl) -> Record {
    match d {
        ModuleDecl::Import(s) => leaf(IMPORT, s),
        ModuleDecl::ExportDecl(s) => leaf(EXPORT_DECL, s),
        ModuleDecl::ExportNamed(s) => leaf(EXPORT_NAMED, s),
        ModuleDecl::ExportDefaultDecl(s) => leaf(EXPORT_DEFAULT_DECL, s),
        ModuleDecl::ExportDefaultExpr(s) => leaf(EXPORT_DEFAULT_EXPR, s),
        ModuleDecl::ExportAll(s) => leaf(EXPORT_ALL, s),
        ModuleDecl::TsImportEquals(s) => leaf(TS_IMPORT_EQUALS, s),
        ModuleDecl::TsExportAssignment(s) => leaf(TS_EXPORT_ASSIGNMENT, s),
        ModuleDecl::TsNamespaceExport(s) => leaf(TS_NAMESPACE_EXPORT, s),
    }
}

pub open spec fn module_items_records(items: Seq<ModuleItem>) -> Seq<Record>
    decreases items,
{
    if items.len() == 0 {
        Seq::empty()
    } else {
        let last = match items.last() {
            ModuleItem::ModuleDecl(d) => module_decl_record(d),
            ModuleItem::Stmt(s) => stmt_record(s),
        };
        module_items_records(items.drop_last()).push(last)
    }
}

pub open spec fn lit_record(l: Lit) -> Record {
    match l {
        Lit::Str(s) => leaf(STRING_LITERAL, s),
        Lit::Bool(s) => leaf(BOOL, s),
        Lit::Null(s) => leaf(NULL, s),
        Lit::Num(s) => leaf(NUM, s),
        Lit::BigInt(s) => leaf(BIG_INT, s),
        Lit::Regex(s) => leaf(REGEX, s),
        Lit::JSXText(s) => leaf(JSX_TEXT, s),
    }
}

pub open spec fn ident_record(i: Ident) -> Record {
    leaf(IDENT, i.span)
}

/// An optional child slot: the child when present, nothing otherwise.
pub open spec fn opt_expr_records(e: Option<Box<Expr>>) -> Seq<Record>
    decreases e,
{
    match e {
        Some(x) => seq![expr_record(*x)],
        None => Seq::empty(),
    }
}

/// A fixed child slot: the child when present, an empty placeholder otherwise.
pub open spec fn slot_record(e: Option<Box<Expr>>, span: Span) -> Record
    decreases e,
{
    match e {
        Some(x) => expr_record(*x),
        None => leaf(EMPTY_EXPR, span),
    }
}

pub open spec fn block_record(b: BlockStmt) -> Record
    decreases b,
{
    node(BLOCK, b.span, stmts_records(b.stmts@))
}

pub open spec fn stmts_records(ss: Seq<Stmt>) -> Seq<Record>
    decreases ss,
{
    if ss.len() == 0 {
        Seq::empty()
    } else {
        stmts_records(ss.drop_last()).push(stmt_record(ss.last()))
    }
}

pub open spec fn case_record(c: SwitchCase) -> Record
    decreases c,
{
    node(SWITCH_CASE, c.span, opt_expr_records(c.test) + stmts_records(c.cons@))
}

pub open spec fn cases_records(cs: Seq<SwitchCase>) -> Seq<Record>
    decreases cs,
{
    if cs.len() == 0 {
        Seq::empty()
    } else {
        cases_records(cs.drop_last()).push(case_record(cs.last()))
    }
}

pub open spec fn pat_record(p: Pat) -> Record
    decreases p,
{
    match p {
        Pat::Ident(i) => ident_record(i),
        Pat::Expr(e) => expr_record(*e),
        Pat::Destructuring(s) => leaf(INVALID, s),
    }
}

pub open spec fn pats_records(ps: Seq<Pat>) -> Seq<Record>
    decreases ps,
{
    if ps.len() == 0 {
        Seq::empty()
    } else {
        pats_records(ps.drop_last()).push(pat_record(ps.last()))
    }
}

pub open spec fn declarator_record(d: VarDeclarator) -> Record
    decreases d,
{
    match d.init {
        Some(x) => node(VAR_DECLARATOR, d.span, seq![pat_record(d.name)].push(expr_record(*x))),
        None => node(VAR_DECLARATOR, d.span, seq![pat_record(d.name)]),
    }
}

pub open spec fn declarators_records(ds: Seq<VarDeclarator>) -> Seq<Record>
    decreases ds,
{
    if ds.len() == 0 {
        Seq::empty()
    } else {
        declarators_records(ds.drop_last()).push(declarator_record(ds.last()))
    }
}

/// A `var` (kind `VAR`) or `using` (kind `USING`) declaration.
pub open spec fn var_decl_record(kind: u8, d: VarDecl) -> Record
    decreases d,
{
    node(kind, d.span, declarators_records(d.decls@))
}

pub open spec fn for_head_record(h: ForHead) -> Record
    decreases h,
{
    match h {
        ForHead::VarDecl(d) => var_decl_record(VAR, d),
        ForHead::UsingDecl(d) => var_decl_record(USING, d),
        ForHead::Pat(p) => pat_record(p),
    }
}

pub open spec fn decl_record(d: Decl) -> Record
    decreases d,
{
    match d {
        Decl::Class(s) => leaf(CLASS, s),
        Decl::Fn { span, body } => match body {
            Some(b) => node(FN, span, seq![block_record(b)]),
            None => leaf(FN, span),
        },
        Decl::Var(v) => var_decl_record(VAR, v),
        Decl::Using(v) => var_decl_record(USING, v),
        Decl::TsInterface(s) => leaf(TS_INTERFACE, s),
        Decl::TsTypeAlias(s) => leaf(TS_TYPE_ALIAS, s),
        Decl::TsEnum(s) => leaf(TS_ENUM, s),
        Decl::TsModule(s) => leaf(TS_MODULE, s),
    }
}

/// A `break` or `continue`, with its label as the one child when present.
pub open spec fn jump_record(kind: u8, span: Span, label: Option<Ident>) -> Record {
    match label {
        Some(l) => node(kind, span, seq![ident_record(l)]),
        None => leaf(kind, span),
    }
}

pub open spec fn for_init_record(init: Option<ForInit>, span: Span) -> Record
    decreases init,
{
    match init {
        Some(ForInit::VarDecl(d)) => var_decl_record(VAR, d),
        Some(ForInit::Expr(e)) => expr_record(*e),
        None => leaf(EMPTY_EXPR, span),
    }
}

pub open spec fn stmt_record(s: Stmt) -> Record
    decreases s,
{
    match s {
        Stmt::Block(b) => block_record(b),
        Stmt::Empty(sp) => leaf(EMPTY, sp),
        Stmt::Debugger(sp) => leaf(DEBUGGER, sp),
        Stmt::With { span, obj, body } => node(
            WITH,
            span,
            seq![expr_record(*obj)].push(stmt_record(*body)),
        ),
        Stmt::Return { span, arg } => match arg {
            Some(x) => node(RETURN, span, seq![expr_record(*x)]),
            None => leaf(RETURN, span),
        },
        Stmt::Labeled { span, body } => node(LABELED, span, seq![stmt_record(*body)]),
        Stmt::Break { span, label } => jump_record(BREAK, span, label),
        Stmt::Continue { span, label } => jump_record(CONTINUE, span, label),
        Stmt::If { span, test, cons, alt } => match alt {
            Some(a) => node(IF, span, seq![expr_record(*test)].push(stmt_record(*cons)).push(stmt_record(*a))),
            None => node(IF, span, seq![expr_record(*test)].push(stmt_record(*cons))),
        },
        Stmt::Switch { span, cases } => node(SWITCH, span, cases_records(cases@)),
        Stmt::Throw { span, arg } => node(THROW, span, seq![expr_record(*arg)]),
        Stmt::Try { span, block, handler, finalizer } => {
            let b = seq![block_record(block)];
            let h = match handler {
                Some(c) => b.push(block_record(c)),
                None => b,
            };
            let f = match finalizer {
                Some(c) => h.push(block_record(c)),
                None => h,
            };
            node(TRY, span, f)
        },
        Stmt::While { span, test, body } => node(
            WHILE,
            span,
            seq![expr_record(*test)].push(stmt_record(*body)),
        ),
        Stmt::DoWhile { span, test, body } => node(
            DO_WHILE,
            span,
            seq![expr_record(*test)].push(stmt_record(*body)),
        ),
        Stmt::For { span, init, test, update, body } => node(
            FOR,
            span,
            seq![for_init_record(init, span)].push(slot_record(test, span)).push(
                slot_record(update, span),
            ).push(stmt_record(*body)),
        ),
        Stmt::ForIn { span, left, right, body } => node(
            FOR_IN,
            span,
            seq![for_head_record(left)].push(expr_record(*right)).push(stmt_record(*body)),
        ),
        Stmt::ForOf { span, left, right, body } => node(
            FOR_OF,
            span,
            seq![for_head_record(left)].push(expr_record(*right)).push(stmt_record(*body)),
        ),
        Stmt::Decl(d) => decl_record(d),
        Stmt::Expr { span, expr } => node(EXPR, span, seq![expr_record(*expr)]),
    }
}

/// The records of one argument: a `SPREAD` marker first when it is spread.
pub open spec fn arg_records(a: ExprOrSpread) -> Seq<Record>
    decreases a,
{
    match a.spread {
        Some(dot3) => seq![leaf(SPREAD, dot3)].push(expr_record(*a.expr)),
        None => seq![expr_record(*a.expr)],
    }
}

pub open spec fn args_records(args: Seq<ExprOrSpread>) -> Seq<Record>
    decreases args,
{
    if args.len() == 0 {
        Seq::empty()
    } else {
        args_records(args.drop_last()) + arg_records(args.last())
    }
}

/// How many of the arguments are spread.
pub open spec fn spread_count(args: Seq<ExprOrSpread>) -> nat
    decreases args.len(),
{
    if args.len() == 0 {
        0
    } else {
        spread_count(args.drop_last()) + if args.last().spread is Some { 1nat } else { 0nat }
    }
}

/// One array element: a spread element is a `SPREAD` record with the value as
/// its one child, and a hole is an empty placeholder at the array's span.
pub open spec fn elem_record(elem: Option<ExprOrSpread>, span: Span) -> Record
    decreases elem,
{
    match elem {
        Some(a) => match a.spread {
            Some(dot3) => node(SPREAD, dot3, seq![expr_record(*a.expr)]),
            None => expr_record(*a.expr),
        },
        None => leaf(EMPTY_EXPR, span),
    }
}

/// Array elements: one record per element.
pub open spec fn elems_records(elems: Seq<Option<ExprOrSpread>>, span: Span) -> Seq<Record>
    decreases elems,
{
    if elems.len() == 0 {
        Seq::empty()
    } else {
        elems_records(elems.drop_last(), span).push(elem_record(elems.last(), span))
    }
}

pub open spec fn prop_record(p: PropOrSpread) -> Record
    decreases p,
{
    match p {
        PropOrSpread::Spread { dot3, expr } => node(SPREAD, dot3, seq![expr_record(*expr)]),
        PropOrSpread::Prop(Prop::Shorthand(i)) => ident_record(i),
        PropOrSpread::Prop(Prop::KeyValue(v)) => expr_record(*v),
        PropOrSpread::Prop(Prop::Assign { span, key, value }) => node(
            ASSIGN,
            span,
            seq![ident_record(key)].push(expr_record(*value)),
        ),
        PropOrSpread::Prop(Prop::Method { span, body }) => match body {
            Some(b) => block_record(b),
            None => leaf(EMPTY_EXPR, span),
        },
    }
}

pub open spec fn props_records(ps: Seq<PropOrSpread>) -> Seq<Record>
    decreases ps,
{
    if ps.len() == 0 {
        Seq::empty()
    } else {
        props_records(ps.drop_last()).push(prop_record(ps.last()))
    }
}

pub open spec fn exprs_records(es: Seq<Expr>) -> Seq<Record>
    decreases es,
{
    if es.len() == 0 {
        Seq::empty()
    } else {
        exprs_records(es.drop_last()).push(expr_record(es.last()))
    }
}

pub open spec fn member_prop_record(p: MemberProp) -> Record
    decreases p,
{
    match p {
        MemberProp::Ident(i) => ident_record(i),
        MemberProp::PrivateName(s) => leaf(PRIVATE_NAME, s),
        MemberProp::Computed(e) => expr_record(*e),
    }
}

pub open spec fn arrow_body_record(b: ArrowBody) -> Record
    decreases b,
{
    match b {
        ArrowBody::Block(blk) => block_record(blk),
        ArrowBody::Expr(x) => expr_record(*x),
    }
}

pub open spec fn opt_type_records(t: Option<Span>) -> Seq<Record> {
    match t {
        Some(s) => seq![leaf(TS_TYPE, s)],
        None => Seq::empty(),
    }
}

pub open spec fn expr_record(e: Expr) -> Record
    decreases e,
{
    match e {
        Expr::This(s) => leaf(THIS, s),
        Expr::Array { span, elems } => node(ARRAY, span, elems_records(elems@, span)),
        Expr::Object { span, props } => node(OBJECT, span, props_records(props@)),
        Expr::Fn(s) => leaf(FN_EXPR, s),
        Expr::Unary { span, arg } => node(UNARY, span, seq![expr_record(*arg)]),
        Expr::Update { span, arg } => node(UPDATE, span, seq![expr_record(*arg)]),
        Expr::Bin { span, left, right } => node(
            BIN,
            span,
            seq![expr_record(*left)].push(expr_record(*right)),
        ),
        Expr::Assign { span, left, right } => node(
            ASSIGN,
            span,
            seq![pat_record(left)].push(expr_record(*right)),
        ),
        Expr::Member { span, obj, prop } => node(
            MEMBER,
            span,
            seq![expr_record(*obj)].push(member_prop_record(prop)),
        ),
        Expr::SuperProp { span, obj, prop } => node(
            SUPER_PROP,
            span,
            seq![leaf(SUPER, obj)].push(member_prop_record(prop)),
        ),
        Expr::Cond { span, test, cons, alt } => node(
            COND,
            span,
            seq![expr_record(*test)].push(expr_record(*cons)).push(expr_record(*alt)),
        ),
        Expr::Call { span, callee, args } => {
            let c = match callee {
                Callee::Super(s) => leaf(SUPER, s),
                Callee::Import(s) => leaf(IMPORT, s),
                Callee::Expr(x) => expr_record(*x),
            };
            node(CALL, span, seq![c] + args_records(args@))
        },
        Expr::New { span, callee, args, type_args } => {
            let a = match args {
                Some(v) => args_records(v@),
                None => Seq::empty(),
            };
            node(NEW, span, seq![expr_record(*callee)] + a + opt_type_records(type_args))
        },
        Expr::Sequence { span, exprs } => node(SEQUENCE, span, exprs_records(exprs@)),
        Expr::Ident(i) => ident_record(i),
        Expr::Lit(l) => lit_record(l),
        Expr::Tpl(s) => leaf(TPL, s),
        Expr::TaggedTpl(s) => leaf(TAGGED_TPL, s),
        Expr::Arrow { span, params, body, return_type, type_params } => {
            let b = arrow_body_record(*body);
            node(
                ARROW,
                span,
                pats_records(params@) + seq![b] + opt_type_records(return_type)
                    + opt_type_records(type_params),
            )
        },
        Expr::Class(s) => leaf(CLASS_EXPR, s),
        Expr::Yield { span, arg } => match arg {
            Some(x) => node(YIELD, span, seq![expr_record(*x)]),
            None => leaf(YIELD, span),
        },
        Expr::MetaProp(s) => leaf(META_PROP, s),
        Expr::Await { span, arg } => node(AWAIT, span, seq![expr_record(*arg)]),
        Expr::Paren { span, expr } => node(SEQUENCE, span, seq![expr_record(*expr)]),
        Expr::JSXMember(s) => leaf(JSX_MEMBER, s),
        Expr::JSXNamespacedName(s) => leaf(JSX_NAMESPACED_NAME, s),
        Expr::JSXEmpty(s) => leaf(JSX_EMPTY, s),
        Expr::JSXElement(s) => leaf(JSX_ELEMENT, s),
        Expr::JSXFragment(s) => leaf(JSX_FRAGMENT, s),
        Expr::TsTypeAssertion { span, expr, type_ann } => node(
            TS_TYPE_ASSERTION,
            span,
            seq![expr_record(*expr)].push(leaf(TS_TYPE, type_ann)),
        ),
        Expr::TsConstAssertion { span, expr } => node(
            TS_CONST_ASSERTION,
            span,
            seq![expr_record(*expr)],
        ),
        Expr::TsNonNull { span, expr } => node(TS_NON_NULL, span, seq![expr_record(*expr)]),
        Expr::TsAs { span, expr, type_ann } => node(
            TS_AS,
            span,
            seq![expr_record(*expr)].push(leaf(TS_TYPE, type_ann)),
        ),
        Expr::TsInstantiation { span, expr, type_args } => node(
            TS_INSTANTIATION,
            span,
            seq![expr_record(*expr)].push(leaf(TS_TYPE, type_args)),
        ),
        Expr::TsSatisfies { span, expr, type_ann } => node(
            TS_SATISFIES,
            span,
            seq![expr_record(*expr)].push(leaf(TS_TYPE, type_ann)),
        ),
        Expr::PrivateName(s) => leaf(PRIVATE_NAME, s),
        Expr::OptChain(s) => leaf(OPT_CHAIN, s),
        Expr::Invalid(s) => leaf(INVALID, s),
    }
}


// Facts about the record lists, each proved by induction on the list.

pub proof fn lemma_module_items_records(xs: Seq<ModuleItem>, j: int)
    requires
        0 <= j <= xs.len(),
    ensures
        module_items_records(xs).len() == xs.len(),
        all_fit(module_items_records(xs)) ==> all_fit(module_items_records(xs.take(j))),
    decreases xs.len(),
{
    broadcast use {lemma_all_fit_empty, lemma_all_fit_push};

    if j == xs.len() {
        assert(xs.take(j) =~= xs);
    }
    if xs.len() > 0 {
        let k = if j == xs.len() { 0 } else { j };
        lemma_module_items_records(xs.drop_last(), k);
        assert(xs.drop_last().take(k) =~= xs.take(k));
    }
}

pub proof fn lemma_stmts_records(xs: Seq<Stmt>, j: int)
    requires
        0 <= j <= xs.len(),
    ensures
        stmts_records(xs).len() == xs.len(),
        all_fit(stmts_records(xs)) ==> all_fit(stmts_records(xs.take(j))),
    decreases xs.len(),
{
    broadcast use {lemma_all_fit_empty, lemma_all_fit_push};

    if j == xs.len() {
        assert(xs.take(j) =~= xs);
    }
    if xs.len() > 0 {
        let k = if j == xs.len() { 0 } else { j };
        lemma_stmts_records(xs.drop_last(), k);
        assert(xs.drop_last().take(k) =~= xs.take(k));
    }
}

pub proof fn lemma_cases_records(xs: Seq<SwitchCase>, j: int)
    requires
        0 <= j <= xs.len(),
    ensures
        cases_records(xs).len() == xs.len(),
        all_fit(cases_records(xs)) ==> all_fit(cases_records(xs.take(j))),
    decreases xs.len(),
{
    broadcast use {lemma_all_fit_empty, lemma_all_fit_push};

    if j == xs.len() {
        assert(xs.take(j) =~= xs);
    }
    if xs.len() > 0 {
        let k = if j == xs.len() { 0 } else { j };
        lemma_cases_records(xs.drop_last(), k);
        assert(xs.drop_last().take(k) =~= xs.take(k));
    }
}

pub proof fn lemma_pats_records(xs: Seq<Pat>, j: int)
    requires
        0 <= j <= xs.len(),
    ensures
        pats_records(xs).len() == xs.len(),
        all_fit(pats_records(xs)) ==> all_fit(pats_records(xs.take(j))),
    decreases xs.len(),
{
    broadcast use {lemma_all_fit_empty, lemma_all_fit_push};

    if j == xs.len() {
        assert(xs.take(j) =~= xs);
    }
    if xs.len() > 0 {
        let k = if j == xs.len() { 0 } else { j };
        lemma_pats_records(xs.drop_last(), k);
        assert(xs.drop_last().take(k) =~= xs.take(k));
    }
}

pub proof fn lemma_declarators_records(xs: Seq<VarDeclarator>, j: int)
    requires
        0 <= j <= xs.len(),
    ensures
        declarators_records(xs).len() == xs.len(),
        all_fit(declarators_records(xs)) ==> all_fit(declarators_records(xs.take(j))),
    decreases xs.len(),
{
    broadcast use {lemma_all_fit_empty, lemma_all_fit_push};

    if j == xs.len() {
        assert(xs.take(j) =~= xs);
    }
    if xs.len() > 0 {
        let k = if j == xs.len() { 0 } else { j };
        lemma_declarators_records(xs.drop_last(), k);
        assert(xs.drop_last().take(k) =~= xs.take(k));
    }
}

pub proof fn lemma_props_records(xs: Seq<PropOrSpread>, j: int)
    requires
        0 <= j <= xs.len(),
    ensures
        props_records(xs).len() == xs.len(),
        all_fit(props_records(xs)) ==> all_fit(props_records(xs.take(j))),
    decreases xs.len(),
{
    broadcast use {lemma_all_fit_empty, lemma_all_fit_push};

    if j == xs.len() {
        assert(xs.take(j) =~= xs);
    }
    if xs.len() > 0 {
        let k = if j == xs.len() { 0 } else { j };
        lemma_props_records(xs.drop_last(), k);
        assert(xs.drop_last().take(k) =~= xs.take(k));
    }
}

pub proof fn lemma_exprs_records(xs: Seq<Expr>, j: int)
    requires
        0 <= j <= xs.len(),
    ensures
        exprs_records(xs).len() == xs.len(),
        all_fit(exprs_records(xs)) ==> all_fit(exprs_records(xs.take(j))),
    decreases xs.len(),
{
    broadcast use {lemma_all_fit_empty, lemma_all_fit_push};

    if j == xs.len() {
        assert(xs.take(j) =~= xs);
    }
    if xs.len() > 0 {
        let k = if j == xs.len() { 0 } else { j };
        lemma_exprs_records(xs.drop_last(), k);
        assert(xs.drop_last().take(k) =~= xs.take(k));
    }
}

pub proof fn lemma_args_records(xs: Seq<ExprOrSpread>, j: int)
    requires
        0 <= j <= xs.len(),
    ensures
        args_records(xs).len() == xs.len() + spread_count(xs),
        all_fit(args_records(xs)) ==> all_fit(args_records(xs.take(j))),
    decreases xs.len(),
{
    if j == xs.len() {
        assert(xs.take(j) =~= xs);
    }
    if xs.len() > 0 {
        let k = if j == xs.len() { 0 } else { j };
        lemma_args_records(xs.drop_last(), k);
        lemma_all_fit_concat(args_records(xs.drop_last()), arg_records(xs.last()));
        assert(xs.drop_last().take(k) =~= xs.take(k));
    }
}

pub proof fn lemma_elems_records(xs: Seq<Option<ExprOrSpread>>, span: Span, j: int)
    requires
        0 <= j <= xs.len(),
    ensures
        elems_records(xs, span).len() == xs.len(),
        all_fit(elems_records(xs, span)) ==> all_fit(elems_records(xs.take(j), span)),
    decreases xs.len(),
{
    broadcast use {lemma_all_fit_empty, lemma_all_fit_push};

    if j == xs.len() {
        assert(xs.take(j) =~= xs);
    }
    if xs.len() > 0 {
        let k = if j == xs.len() { 0 } else { j };
        lemma_elems_records(xs.drop_last(), span, k);
        assert(xs.drop_last().take(k) =~= xs.take(k));
    }
}

} // verus!

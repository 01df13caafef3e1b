use lint_ast::ast::{
    ArrowBody, BlockStmt, Callee, Decl, Expr, ExprOrSpread, Ident, ModuleDecl, ModuleItem, Pat,
    Program, Stmt, VarDecl, VarDeclarator,
};
use lint_ast::encode::serialize_ast_bin;
use lint_ast::kind;
use lint_ast::record::{EncodeError, Span, HEADER_LEN};

fn sp(lo: u32, hi: u32) -> Span {
    Span { lo, hi }
}

fn ident(lo: u32, hi: u32) -> Box<Expr> {
    Box::new(Expr::Ident(Ident { span: sp(lo, hi) }))
}

fn script(body: Vec<Stmt>) -> Program {
    Program::Script { span: sp(0, 100), body }
}

/// Reads one record and its children; returns (kind, count) pairs in pre-order.
fn decode(buf: &[u8], pos: &mut usize, out: &mut Vec<(u8, u32)>) {
    assert!(*pos + HEADER_LEN <= buf.len(), "truncated record");
    let kind = buf[*pos];
    assert_eq!(buf[*pos + 1], kind::FLAGS_NONE);
    let count = u32::from_le_bytes([buf[*pos + 2], buf[*pos + 3], buf[*pos + 4], buf[*pos + 5]]);
    *pos += HEADER_LEN;
    out.push((kind, count));
    for _ in 0..count {
        decode(buf, pos, out);
    }
}

fn shape(buf: &[u8]) -> Vec<(u8, u32)> {
    let mut out = Vec::new();
    let mut pos = 0usize;
    decode(buf, &mut pos, &mut out);
    assert_eq!(pos, buf.len(), "bytes left after the root record");
    out
}

fn if_stmt() -> Stmt {
    // if (a) { b; }
    Stmt::If {
        span: sp(0, 13),
        test: ident(4, 5),
        cons: Box::new(Stmt::Block(BlockStmt {
            span: sp(7, 13),
            stmts: vec![Stmt::Expr { span: sp(9, 11), expr: ident(9, 10) }],
        })),
        alt: None,
    }
}

#[test]
fn if_statement_shape() {
    let buf = serialize_ast_bin(&script(vec![if_stmt()])).unwrap();
    assert_eq!(
        shape(&buf),
        vec![
            (kind::PROGRAM, 1),
            (kind::IF, 2),
            (kind::IDENT, 0),
            (kind::BLOCK, 1),
            (kind::EXPR, 1),
            (kind::IDENT, 0),
        ]
    );
}

#[test]
fn header_layout_and_span() {
    let buf = serialize_ast_bin(&script(vec![Stmt::Debugger(sp(0x0102_0304, 0x0a0b_0c0d))]))
        .unwrap();
    assert_eq!(buf.len(), 2 * HEADER_LEN);
    assert_eq!(&buf[0..6], &[kind::PROGRAM, 0, 1, 0, 0, 0]);
    assert_eq!(&buf[6..14], &[0, 0, 0, 0, 100, 0, 0, 0]);
    assert_eq!(
        &buf[14..28],
        &[kind::DEBUGGER, 0, 0, 0, 0, 0, 4, 3, 2, 1, 0x0d, 0x0c, 0x0b, 0x0a]
    );
}

#[test]
fn empty_for_loop_has_placeholders() {
    // for (;;) {}
    let s = Stmt::For {
        span: sp(0, 11),
        init: None,
        test: None,
        update: None,
        body: Box::new(Stmt::Block(BlockStmt { span: sp(9, 11), stmts: vec![] })),
    };
    let buf = serialize_ast_bin(&script(vec![s])).unwrap();
    assert_eq!(
        shape(&buf),
        vec![
            (kind::PROGRAM, 1),
            (kind::FOR, 4),
            (kind::EMPTY_EXPR, 0),
            (kind::EMPTY_EXPR, 0),
            (kind::EMPTY_EXPR, 0),
            (kind::BLOCK, 0),
        ]
    );
}

#[test]
fn empty_block_and_if_without_else() {
    let empty = Stmt::Block(BlockStmt { span: sp(0, 2), stmts: vec![] });
    let buf = serialize_ast_bin(&script(vec![empty, if_stmt()])).unwrap();
    let sh = shape(&buf);
    assert_eq!(sh[1], (kind::BLOCK, 0));
    assert_eq!(sh[2], (kind::IF, 2));
}

#[test]
fn if_with_else_declares_three() {
    let s = Stmt::If {
        span: sp(0, 20),
        test: ident(4, 5),
        cons: Box::new(Stmt::Empty(sp(7, 8))),
        alt: Some(Box::new(Stmt::Empty(sp(14, 15)))),
    };
    let sh = shape(&serialize_ast_bin(&script(vec![s])).unwrap());
    assert_eq!(sh[1], (kind::IF, 3));
    assert_eq!(sh.len(), 5);
}

#[test]
fn call_with_spread_arguments() {
    // f(a, ...b, c)
    let call = Expr::Call {
        span: sp(0, 13),
        callee: Callee::Expr(ident(0, 1)),
        args: vec![
            ExprOrSpread { spread: None, expr: ident(2, 3) },
            ExprOrSpread { spread: Some(sp(5, 8)), expr: ident(8, 9) },
            ExprOrSpread { spread: None, expr: ident(11, 12) },
        ],
    };
    let s = Stmt::Expr { span: sp(0, 14), expr: Box::new(call) };
    let sh = shape(&serialize_ast_bin(&script(vec![s])).unwrap());
    assert_eq!(
        sh,
        vec![
            (kind::PROGRAM, 1),
            (kind::EXPR, 1),
            (kind::CALL, 5),
            (kind::IDENT, 0),
            (kind::IDENT, 0),
            (kind::SPREAD, 0),
            (kind::IDENT, 0),
            (kind::IDENT, 0),
        ]
    );
}

#[test]
fn encoding_twice_gives_identical_bytes() {
    let p = script(vec![if_stmt()]);
    assert_eq!(serialize_ast_bin(&p), serialize_ast_bin(&p));
}

#[test]
fn module_items_in_order() {
    let p = Program::Module {
        span: sp(0, 50),
        body: vec![
            ModuleItem::ModuleDecl(ModuleDecl::Import(sp(0, 20))),
            ModuleItem::Stmt(Stmt::Empty(sp(21, 22))),
            ModuleItem::ModuleDecl(ModuleDecl::ExportAll(sp(23, 40))),
        ],
    };
    let sh = shape(&serialize_ast_bin(&p).unwrap());
    assert_eq!(
        sh,
        vec![(kind::PROGRAM, 3), (kind::IMPORT, 0), (kind::EMPTY, 0), (kind::EXPORT_ALL, 0)]
    );
}

#[test]
fn kind_numbering_is_stable() {
    assert_eq!(kind::INVALID, 0);
    assert_eq!(kind::PROGRAM, 1);
    assert_eq!(kind::BLOCK, 20);
    assert_eq!(kind::IF, 28);
    assert_eq!(kind::FOR, 35);
    assert_eq!(kind::EXPR, 39);
    assert_eq!(kind::CALL, 51);
    assert_eq!(kind::IDENT, 54);
    assert_eq!(kind::JSX_TEXT, 81);
    assert_eq!(kind::EMPTY_EXPR, 82);
    assert_eq!(kind::SPREAD, 83);
    assert_eq!(kind::VAR_DECLARATOR, 85);
    assert_eq!(kind::TS_TYPE, 86);
    assert_eq!(kind::SUPER, 87);
}

#[test]
fn error_type_is_comparable() {
    assert_eq!(EncodeError::CountOverflow, EncodeError::CountOverflow);
}

#[test]
fn try_with_catch_and_finally() {
    let blk = |lo: u32| BlockStmt { span: sp(lo, lo + 2), stmts: vec![] };
    let s = Stmt::Try { span: sp(0, 30), block: blk(4), handler: Some(blk(14)), finalizer: Some(blk(26)) };
    let sh = shape(&serialize_ast_bin(&script(vec![s])).unwrap());
    assert_eq!(
        sh,
        vec![(kind::PROGRAM, 1), (kind::TRY, 3), (kind::BLOCK, 0), (kind::BLOCK, 0), (kind::BLOCK, 0)]
    );
    let s = Stmt::Try { span: sp(0, 20), block: blk(4), handler: None, finalizer: Some(blk(16)) };
    let sh = shape(&serialize_ast_bin(&script(vec![s])).unwrap());
    assert_eq!(sh, vec![(kind::PROGRAM, 1), (kind::TRY, 2), (kind::BLOCK, 0), (kind::BLOCK, 0)]);
}

#[test]
fn labeled_break_and_bare_return() {
    let body = Stmt::Break { span: sp(3, 12), label: Some(Ident { span: sp(9, 11) }) };
    let s = Stmt::Labeled { span: sp(0, 12), body: Box::new(body) };
    let r = Stmt::Return { span: sp(13, 20), arg: None };
    let sh = shape(&serialize_ast_bin(&script(vec![s, r])).unwrap());
    assert_eq!(
        sh,
        vec![
            (kind::PROGRAM, 2),
            (kind::LABELED, 1),
            (kind::BREAK, 1),
            (kind::IDENT, 0),
            (kind::RETURN, 0),
        ]
    );
}

#[test]
fn declarations_with_and_without_initializer() {
    // let a = b, c;
    let d = Decl::Var(VarDecl {
        span: sp(0, 13),
        decls: vec![
            VarDeclarator { span: sp(4, 9), name: Pat::Ident(Ident { span: sp(4, 5) }), init: Some(ident(8, 9)) },
            VarDeclarator { span: sp(11, 12), name: Pat::Ident(Ident { span: sp(11, 12) }), init: None },
        ],
    });
    let sh = shape(&serialize_ast_bin(&script(vec![Stmt::Decl(d)])).unwrap());
    assert_eq!(
        sh,
        vec![
            (kind::PROGRAM, 1),
            (kind::VAR, 2),
            (kind::VAR_DECLARATOR, 2),
            (kind::IDENT, 0),
            (kind::IDENT, 0),
            (kind::VAR_DECLARATOR, 1),
            (kind::IDENT, 0),
        ]
    );
}

#[test]
fn arrow_with_params_and_return_type() {
    // (x): T => (x)
    let arrow = Expr::Arrow {
        span: sp(0, 14),
        params: vec![Pat::Ident(Ident { span: sp(1, 2) })],
        body: Box::new(ArrowBody::Expr(Box::new(Expr::Paren { span: sp(11, 14), expr: ident(12, 13) }))),
        return_type: Some(sp(5, 6)),
        type_params: None,
    };
    let s = Stmt::Expr { span: sp(0, 15), expr: Box::new(arrow) };
    let sh = shape(&serialize_ast_bin(&script(vec![s])).unwrap());
    assert_eq!(
        sh,
        vec![
            (kind::PROGRAM, 1),
            (kind::EXPR, 1),
            (kind::ARROW, 3),
            (kind::IDENT, 0),
            (kind::SEQUENCE, 1),
            (kind::IDENT, 0),
            (kind::TS_TYPE, 0),
        ]
    );
}

#[test]
fn yield_with_and_without_argument() {
    let y1 = Expr::Yield { span: sp(0, 7), arg: Some(ident(6, 7)) };
    let y2 = Expr::Yield { span: sp(8, 13), arg: None };
    let seq = Expr::Sequence { span: sp(0, 13), exprs: vec![y1, y2] };
    let s = Stmt::Expr { span: sp(0, 14), expr: Box::new(seq) };
    let sh = shape(&serialize_ast_bin(&script(vec![s])).unwrap());
    assert_eq!(
        sh,
        vec![
            (kind::PROGRAM, 1),
            (kind::EXPR, 1),
            (kind::SEQUENCE, 2),
            (kind::YIELD, 1),
            (kind::IDENT, 0),
            (kind::YIELD, 0),
        ]
    );
}

#[test]
fn array_spread_wraps_its_value() {
    // [a, ...xs, , b]
    let arr = Expr::Array {
        span: sp(0, 16),
        elems: vec![
            Some(ExprOrSpread { spread: None, expr: ident(1, 2) }),
            Some(ExprOrSpread { spread: Some(sp(4, 7)), expr: ident(7, 9) }),
            None,
            Some(ExprOrSpread { spread: None, expr: ident(13, 14) }),
        ],
    };
    let s = Stmt::Expr { span: sp(0, 17), expr: Box::new(arr) };
    let sh = shape(&serialize_ast_bin(&script(vec![s])).unwrap());
    assert_eq!(
        sh,
        vec![
            (kind::PROGRAM, 1),
            (kind::EXPR, 1),
            (kind::ARRAY, 4),
            (kind::IDENT, 0),
            (kind::SPREAD, 1),
            (kind::IDENT, 0),
            (kind::EMPTY_EXPR, 0),
            (kind::IDENT, 0),
        ]
    );
}

#[test]
fn super_member_and_super_call() {
    // super.x; super(a);
    let member = Expr::SuperProp {
        span: sp(0, 7),
        obj: sp(0, 5),
        prop: lint_ast::ast::MemberProp::Ident(Ident { span: sp(6, 7) }),
    };
    let call = Expr::Call {
        span: sp(9, 17),
        callee: Callee::Super(sp(9, 14)),
        args: vec![ExprOrSpread { spread: None, expr: ident(15, 16) }],
    };
    let s1 = Stmt::Expr { span: sp(0, 8), expr: Box::new(member) };
    let s2 = Stmt::Expr { span: sp(9, 18), expr: Box::new(call) };
    let sh = shape(&serialize_ast_bin(&script(vec![s1, s2])).unwrap());
    assert_eq!(
        sh,
        vec![
            (kind::PROGRAM, 2),
            (kind::EXPR, 1),
            (kind::SUPER_PROP, 2),
            (kind::SUPER, 0),
            (kind::IDENT, 0),
            (kind::EXPR, 1),
            (kind::CALL, 2),
            (kind::SUPER, 0),
            (kind::IDENT, 0),
        ]
    );
}

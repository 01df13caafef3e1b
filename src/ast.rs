use vstd::prelude::*;

use crate::record::Span;

verus! {

// The syntax tree that the encoder reads. Each node carries its source span;
// constructs whose inner structure the encoding leaves opaque carry only that.

#[derive(Clone, Copy, Debug)]
pub struct Ident {
    pub span: Span,
}

pub struct BlockStmt {
    pub span: Span,
    pub stmts: Vec<Stmt>,
}

pub enum Program {
    /// A file with import or export declarations.
    Module { span: Span, body: Vec<ModuleItem> },
    Script { span: Span, body: Vec<Stmt> },
}

pub enum ModuleItem {
    ModuleDecl(ModuleDecl),
    Stmt(Stmt),
}

#[derive(Clone, Copy, Debug)]
pub enum ModuleDecl {
    Import(Span),
    ExportDecl(Span),
    ExportNamed(Span),
    ExportDefaultDecl(Span),
    ExportDefaultExpr(Span),
    ExportAll(Span),
    TsImportEquals(Span),
    TsExportAssignment(Span),
    TsNamespaceExport(Span),
}

pub enum Stmt {
    Block(BlockStmt),
    Empty(Span),
    Debugger(Span),
    With { span: Span, obj: Box<Expr>, body: Box<Stmt> },
    Return { span: Span, arg: Option<Box<Expr>> },
    /// `label: body`; only the body is encoded.
    Labeled { span: Span, body: Box<Stmt> },
    Break { span: Span, label: Option<Ident> },
    Continue { span: Span, label: Option<Ident> },
    If { span: Span, test: Box<Expr>, cons: Box<Stmt>, alt: Option<Box<Stmt>> },
    Switch { span: Span, cases: Vec<SwitchCase> },
    Throw { span: Span, arg: Box<Expr> },
    /// `handler` is the body of the catch clause.
    Try {
        span: Span,
        block: BlockStmt,
        handler: Option<BlockStmt>,
        finalizer: Option<BlockStmt>,
    },
    While { span: Span, test: Box<Expr>, body: Box<Stmt> },
    DoWhile { span: Span, test: Box<Expr>, body: Box<Stmt> },
    For {
        span: Span,
        init: Option<ForInit>,
        test: Option<Box<Expr>>,
        update: Option<Box<Expr>>,
        body: Box<Stmt>,
    },
    ForIn { span: Span, left: ForHead, right: Box<Expr>, body: Box<Stmt> },
    ForOf { span: Span, left: ForHead, right: Box<Expr>, body: Box<Stmt> },
    Decl(Decl),
    Expr { span: Span, expr: Box<Expr> },
}

pub struct SwitchCase {
    pub span: Span,
    /// Absent for the `default` case.
    pub test: Option<Box<Expr>>,
    pub cons: Vec<Stmt>,
}

pub enum ForInit {
    VarDecl(VarDecl),
    Expr(Box<Expr>),
}

pub enum ForHead {
    VarDecl(VarDecl),
    UsingDecl(VarDecl),
    Pat(Pat),
}

/// A `var`/`let`/`const` declaration, or a `using` declaration.
pub struct VarDecl {
    pub span: Span,
    pub decls: Vec<VarDeclarator>,
}

pub struct VarDeclarator {
    pub span: Span,
    pub name: Pat,
    pub init: Option<Box<Expr>>,
}

pub enum Pat {
    Ident(Ident),
    Expr(Box<Expr>),
    /// An array, object, rest or default-value pattern, encoded as an opaque leaf.
    Destructuring(Span),
}

pub enum Decl {
    Class(Span),
    Fn { span: Span, body: Option<BlockStmt> },
    Var(VarDecl),
    Using(VarDecl),
    TsInterface(Span),
    TsTypeAlias(Span),
    TsEnum(Span),
    TsModule(Span),
}

/// A call argument or an array element; `spread` is the span of the `...` token.
pub struct ExprOrSpread {
    pub spread: Option<Span>,
    pub expr: Box<Expr>,
}

pub enum Prop {
    Shorthand(Ident),
    /// `key: value`; only the value is encoded.
    KeyValue(Box<Expr>),
    Assign { span: Span, key: Ident, value: Box<Expr> },
    /// A method, getter or setter; `body` is absent in a bodiless signature.
    Method { span: Span, body: Option<BlockStmt> },
}

pub enum PropOrSpread {
    Spread { dot3: Span, expr: Box<Expr> },
    Prop(Prop),
}

pub enum MemberProp {
    Ident(Ident),
    PrivateName(Span),
    Computed(Box<Expr>),
}

pub enum Callee {
    Super(Span),
    Import(Span),
    Expr(Box<Expr>),
}

pub enum ArrowBody {
    Block(BlockStmt),
    Expr(Box<Expr>),
}

#[derive(Clone, Copy, Debug)]
pub enum Lit {
    Str(Span),
    Bool(Span),
    Null(Span),
    Num(Span),
    BigInt(Span),
    Regex(Span),
    JSXText(Span),
}

pub enum Expr {
    This(Span),
    /// `None` elements are holes (`[a, , b]`).
    Array { span: Span, elems: Vec<Option<ExprOrSpread>> },
    Object { span: Span, props: Vec<PropOrSpread> },
    Fn(Span),
    Unary { span: Span, arg: Box<Expr> },
    Update { span: Span, arg: Box<Expr> },
    Bin { span: Span, left: Box<Expr>, right: Box<Expr> },
    Assign { span: Span, left: Pat, right: Box<Expr> },
    Member { span: Span, obj: Box<Expr>, prop: MemberProp },
    /// `super.x` or `super[x]`; `obj` is the span of `super`.
    SuperProp { span: Span, obj: Span, prop: MemberProp },
    Cond { span: Span, test: Box<Expr>, cons: Box<Expr>, alt: Box<Expr> },
    Call { span: Span, callee: Callee, args: Vec<ExprOrSpread> },
    New {
        span: Span,
        callee: Box<Expr>,
        args: Option<Vec<ExprOrSpread>>,
        type_args: Option<Span>,
    },
    Sequence { span: Span, exprs: Vec<Expr> },
    Ident(Ident),
    Lit(Lit),
    Tpl(Span),
    TaggedTpl(Span),
    Arrow {
        span: Span,
        params: Vec<Pat>,
        body: Box<ArrowBody>,
        return_type: Option<Span>,
        type_params: Option<Span>,
    },
    Class(Span),
    Yield { span: Span, arg: Option<Box<Expr>> },
    MetaProp(Span),
    Await { span: Span, arg: Box<Expr> },
    Paren { span: Span, expr: Box<Expr> },
    JSXMember(Span),
    JSXNamespacedName(Span),
    JSXEmpty(Span),
    JSXElement(Span),
    JSXFragment(Span),
    /// `<T>expr`: encoded as `expr as T` is, with the expression and then the
    /// type as its two children.
    TsTypeAssertion { span: Span, expr: Box<Expr>, type_ann: Span },
    TsConstAssertion { span: Span, expr: Box<Expr> },
    TsNonNull { span: Span, expr: Box<Expr> },
    TsAs { span: Span, expr: Box<Expr>, type_ann: Span },
    TsInstantiation { span: Span, expr: Box<Expr>, type_args: Span },
    TsSatisfies { span: Span, expr: Box<Expr>, type_ann: Span },
    PrivateName(Span),
    OptChain(Span),
    /// A node the parser recovered from an error.
    Invalid(Span),
}

} // verus!

use crate::span::Span;
use vstd::prelude::*;

verus! {

/// Binary operators.
#[derive(Clone, Copy, Debug, PartialEq, Eq, Structural)]
pub enum BinOp {
    Add,
    AndB,
    AndL,
    Div,
    Eq,
    Exp,
    Gt,
    Gte,
    Lt,
    Lte,
    Mod,
    Mul,
    Neq,
    OrB,
    OrL,
    Shl,
    Shr,
    Sub,
    XorB,
}

/// Unary operators.
#[derive(Clone, Copy, Debug, PartialEq, Eq, Structural)]
pub enum UnOp {
    Neg,
    NotB,
    NotL,
    Pos,
    Unwrap,
}

/// Literals. Only the value of an integer literal is read by the checks.
#[derive(Debug)]
pub enum Lit {
    BigInt(String),
    Bool(bool),
    Double(String),
    Int(i64),
    Str(String),
}

/// Whether a local binding may be reassigned.
#[derive(Clone, Copy, Debug, PartialEq, Eq, Structural)]
pub enum Mutability {
    Immutable,
    Mutable,
}

/// An expression with its source span.
#[derive(Debug)]
pub struct Expr {
    pub span: Span,
    pub kind: ExprKind,
}

#[derive(Debug)]
pub enum ExprKind {
    /// `lhs = rhs`
    Assign(Box<Expr>, Box<Expr>),
    /// `lhs op= rhs`
    AssignOp(BinOp, Box<Expr>, Box<Expr>),
    /// `lhs op rhs`
    BinOp(BinOp, Box<Expr>, Box<Expr>),
    /// `{ ... }`
    Block(Box<Block>),
    /// `callee(args)`, where the arguments are one (often tuple) expression.
    Call(Box<Expr>, Box<Expr>),
    /// `if cond { ... } else ...`
    If(Box<Expr>, Box<Block>, Option<Box<Expr>>),
    Lit(Lit),
    /// `( inner )`
    Paren(Box<Expr>),
    /// A name.
    Path(String),
    /// `(a, b, ...)`
    Tuple(Vec<Expr>),
    UnOp(UnOp, Box<Expr>),
    /// `while cond { ... }`
    While(Box<Expr>, Box<Block>),
}

/// The pattern a local binding introduces.
#[derive(Debug)]
pub struct Pat {
    pub span: Span,
    pub name: String,
}

/// A statement with its source span.
#[derive(Debug)]
pub struct Stmt {
    pub span: Span,
    pub kind: StmtKind,
}

#[derive(Debug)]
pub enum StmtKind {
    /// A lone `;`.
    Empty,
    /// An expression without a terminating `;`.
    Expr(Box<Expr>),
    /// An item declared among statements.
    Item(Box<Item>),
    /// `let pat = init;` or `mutable pat = init;`
    Local(Mutability, Box<Pat>, Box<Expr>),
    /// An expression followed by `;`.
    Semi(Box<Expr>),
}

/// A braced sequence of statements.
#[derive(Debug)]
pub struct Block {
    pub span: Span,
    pub stmts: Vec<Stmt>,
}

/// A field of a `struct` declaration.
#[derive(Debug)]
pub struct FieldDef {
    pub span: Span,
    pub name: String,
    pub ty: String,
}

/// A declaration with its source span.
#[derive(Debug)]
pub struct Item {
    pub span: Span,
    pub kind: ItemKind,
}

#[derive(Debug)]
pub enum ItemKind {
    /// A callable with its name and body.
    Callable(String, Box<Block>),
    /// `namespace Name { items }`
    Namespace(String, Vec<Item>),
    /// `open Name;`
    Open(String),
    /// `struct Name { fields }`
    Struct(String, Vec<FieldDef>),
    /// `newtype Name = Def;`, the deprecated form of a type declaration.
    Ty(String, String),
}

/// The root of a tree: a sequence of top-level items.
#[derive(Debug)]
pub struct Package {
    pub items: Vec<Item>,
}

/// Every span in the expression runs forwards, and every parenthesized
/// expression spans at least its two delimiters.
pub open spec fn wf_expr(e: Expr) -> bool
    decreases e,
{
    &&& e.span.wf()
    &&& match e.kind {
        ExprKind::Assign(l, r) => wf_expr(*l) && wf_expr(*r),
        ExprKind::AssignOp(_, l, r) => wf_expr(*l) && wf_expr(*r),
        ExprKind::BinOp(_, l, r) => wf_expr(*l) && wf_expr(*r),
        ExprKind::Block(b) => wf_block(*b),
        ExprKind::Call(l, r) => wf_expr(*l) && wf_expr(*r),
        ExprKind::If(c, b, els) => wf_expr(*c) && wf_block(*b) && match els {
            Some(x) => wf_expr(*x),
            None => true,
        },
        ExprKind::Lit(_) => true,
        ExprKind::Paren(x) => e.span.lo + 1 < e.span.hi && wf_expr(*x),
        ExprKind::Path(_) => true,
        ExprKind::Tuple(es) => forall|i: int| 0 <= i < es@.len() ==> wf_expr(#[trigger] es@[i]),
        ExprKind::UnOp(_, x) => wf_expr(*x),
        ExprKind::While(c, b) => wf_expr(*c) && wf_block(*b),
    }
}

pub open spec fn wf_stmt(s: Stmt) -> bool
    decreases s,
{
    &&& s.span.wf()
    &&& match s.kind {
        StmtKind::Empty => true,
        StmtKind::Expr(e) => wf_expr(*e),
        StmtKind::Item(i) => wf_item(*i),
        StmtKind::Local(_, p, e) => p.span.wf() && wf_expr(*e),
        StmtKind::Semi(e) => wf_expr(*e),
    }
}

pub open spec fn wf_block(b: Block) -> bool
    decreases b,
{
    &&& b.span.wf()
    &&& forall|i: int| 0 <= i < b.stmts@.len() ==> wf_stmt(#[trigger] b.stmts@[i])
}

pub open spec fn wf_item(it: Item) -> bool
    decreases it,
{
    &&& it.span.wf()
    &&& match it.kind {
        ItemKind::Callable(_, b) => wf_block(*b),
        ItemKind::Namespace(_, items) => forall|i: int|
            0 <= i < items@.len() ==> wf_item(#[trigger] items@[i]),
        ItemKind::Open(_) => true,
        ItemKind::Struct(_, fields) => forall|i: int|
            0 <= i < fields@.len() ==> (#[trigger] fields@[i]).span.wf(),
        ItemKind::Ty(_, _) => true,
    }
}

pub open spec fn wf_package(p: Package) -> bool {
    forall|i: int| 0 <= i < p.items@.len() ==> wf_item(#[trigger] p.items@[i])
}

} // verus!

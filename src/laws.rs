use crate::ast::{wf_expr, Block, Expr, ExprKind, Item, ItemKind, Package, Stmt, StmtKind};
use crate::lint::{lint_of, AstLint, LintLevel, LintView};
use crate::lints::{AstLintPass, divides_by_literal_zero, paren_lints, precedence_of, strip_delimiters, NeedlessParens};
use crate::pass::{when_enabled, CombinedAstLints};
use crate::span::Span;
use vstd::prelude::*;

verus! {

/// The diagnostics of `s` reported by rule `kind`, in order.
pub open spec fn of_kind(s: Seq<LintView>, kind: AstLint) -> Seq<LintView> {
    s.filter(|l: LintView| l.kind == kind)
}

/// Replaces the text under `edit.1` by `edit.0`.
pub open spec fn splice(text: Seq<char>, edit: (Seq<char>, Span)) -> Seq<char> {
    text.subrange(0, edit.1.lo as int) + edit.0 + text.subrange(edit.1.hi as int, text.len() as int)
}

/// Applies edits given against the original text, in order and not
/// overlapping, by splicing them in from the last to the first.
pub open spec fn apply_edits(text: Seq<char>, edits: Seq<(Seq<char>, Span)>) -> Seq<char>
    decreases edits.len(),
{
    if edits.len() == 0 {
        text
    } else {
        apply_edits(splice(text, edits.last()), edits.drop_last())
    }
}

proof fn lemma_of_kind_none(s: Seq<LintView>, kind: AstLint)
    requires
        forall|i: int| 0 <= i < s.len() ==> (#[trigger] s[i]).kind != kind,
    ensures
        of_kind(s, kind) == Seq::<LintView>::empty(),
    decreases s.len(),
{
    reveal_with_fuel(Seq::filter, 1);
    if s.len() > 0 {
        lemma_of_kind_none(s.drop_last(), kind);
    }
    assert(of_kind(s, kind) =~= Seq::<LintView>::empty());
}

proof fn lemma_of_kind_one(l: LintView, kind: AstLint)
    ensures
        of_kind(seq![l], kind) == if l.kind == kind { seq![l] } else { Seq::empty() },
{
    reveal_with_fuel(Seq::filter, 2);
    assert(seq![l].drop_last() =~= Seq::<LintView>::empty());
    if l.kind == kind {
        assert(of_kind(seq![l], kind) =~= seq![l]);
    } else {
        assert(of_kind(seq![l], kind) =~= Seq::<LintView>::empty());
    }
}

proof fn lemma_paren_lints_kind(level: LintLevel, parent: Expr, child: Expr)
    ensures
        forall|i: int|
            0 <= i < paren_lints(level, parent, child).len() ==> (#[trigger] paren_lints(
                level,
                parent,
                child,
            )[i]).kind == AstLint::NeedlessParens,
{
}

proof fn lemma_needless_parens_kind(np: NeedlessParens, e: Expr)
    ensures
        forall|i: int|
            0 <= i < np.expr_lints(e).len() ==> (#[trigger] np.expr_lints(e)[i]).kind
                == AstLint::NeedlessParens,
{
    match e.kind {
        ExprKind::BinOp(_, l, r) => {
            lemma_paren_lints_kind(np.level, e, *l);
            lemma_paren_lints_kind(np.level, e, *r);
            let x = paren_lints(np.level, e, *l);
            let y = paren_lints(np.level, e, *r);
            assert forall|i: int| 0 <= i < (x + y).len() implies (#[trigger] (x + y)[i]).kind
                == AstLint::NeedlessParens by {
                if i >= x.len() {
                    assert((x + y)[i] == y[i - x.len()]);
                }
            }
        },
        ExprKind::Assign(_, r) => lemma_paren_lints_kind(np.level, e, *r),
        ExprKind::AssignOp(_, _, r) => lemma_paren_lints_kind(np.level, e, *r),
        _ => {},
    }
}

/// With the rule enabled, the diagnostics run at an expression hold one
/// division-by-zero diagnostic, spanning the whole expression, when it
/// divides by the integer literal `0` itself, and none otherwise (also not
/// for a divisor of `(0)` or of any other literal).
pub proof fn lemma_division_by_zero_exact(c: CombinedAstLints, e: Expr)
    requires
        c.division_by_zero.level != LintLevel::Allow,
    ensures
        of_kind(c.expr_hook(e), AstLint::DivisionByZero) == if divides_by_literal_zero(e) {
            seq![lint_of(AstLint::DivisionByZero, c.division_by_zero.level, e.span, Seq::empty())]
        } else {
            Seq::empty()
        },
{
    let a = c.division_by_zero.expr_lints(e);
    let b = when_enabled(c.needless_parens.level, c.needless_parens.expr_lints(e));
    assert(c.expr_hook(e) == a + b);
    Seq::filter_distributes_over_add(a, b, |l: LintView| l.kind == AstLint::DivisionByZero);
    lemma_needless_parens_kind(c.needless_parens, e);
    lemma_of_kind_none(b, AstLint::DivisionByZero);
    if divides_by_literal_zero(e) {
        lemma_of_kind_one(a[0], AstLint::DivisionByZero);
        assert(a =~= seq![a[0]]);
    } else {
        lemma_of_kind_none(a, AstLint::DivisionByZero);
    }
}

/// A parenthesized `child` of `parent` is reported iff the expression it
/// encloses binds strictly tighter than `parent`; the one diagnostic then
/// spans the parentheses, and applying its edits to the source removes
/// exactly the two delimiters.
pub proof fn lemma_needless_parens_exact(
    level: LintLevel,
    parent: Expr,
    child: Expr,
    text: Seq<char>,
)
    requires
        child.kind is Paren,
        wf_expr(child),
        child.span.hi <= text.len(),
    ensures
        paren_lints(level, parent, child).len() <= 1,
        (paren_lints(level, parent, child).len() == 1) == (precedence_of(parent) < precedence_of(
            *child.kind->Paren_0,
        )),
        paren_lints(level, parent, child).len() == 1 ==> {
            let l = paren_lints(level, parent, child)[0];
            &&& l.kind == AstLint::NeedlessParens
            &&& l.span == child.span
            &&& apply_edits(text, l.edits) == text.subrange(0, child.span.lo as int) + text.subrange(
                child.span.lo + 1,
                child.span.hi - 1,
            ) + text.subrange(child.span.hi as int, text.len() as int)
        },
{
    let sp = child.span;
    let edits = strip_delimiters(sp);
    let once = splice(text, edits[1]);
    assert(edits.drop_last() =~= seq![edits[0]]);
    assert(seq![edits[0]].drop_last() =~= Seq::<(Seq<char>, Span)>::empty());
    reveal_with_fuel(apply_edits, 3);
    assert(edits.last() == edits[1]);
    assert(apply_edits(text, edits) == splice(once, edits[0]));
    assert(splice(once, edits[0]) =~= text.subrange(0, sp.lo as int) + text.subrange(sp.lo + 1, sp.hi - 1)
        + text.subrange(sp.hi as int, text.len() as int));
}

/// With the rule enabled, the diagnostics run at an item hold one
/// deprecated-newtype diagnostic, spanning the item, when it is declared
/// with `newtype`, and none otherwise.
pub proof fn lemma_deprecated_newtype_exact(c: CombinedAstLints, it: Item)
    requires
        c.deprecated_newtype.level != LintLevel::Allow,
    ensures
        of_kind(c.item_hook(it), AstLint::DeprecatedNewtype) == if it.kind is Ty {
            seq![lint_of(AstLint::DeprecatedNewtype, c.deprecated_newtype.level, it.span, Seq::empty())]
        } else {
            Seq::empty()
        },
{
    let a = c.deprecated_newtype.item_lints(it);
    if it.kind is Ty {
        lemma_of_kind_one(a[0], AstLint::DeprecatedNewtype);
        assert(a =~= seq![a[0]]);
    } else {
        lemma_of_kind_none(a, AstLint::DeprecatedNewtype);
    }
}

/// The spans of the items declared with `newtype` in `e`, in pre-order.
pub open spec fn newtype_spans_expr(e: Expr) -> Seq<Span>
    decreases e,
{
    match e.kind {
        ExprKind::Assign(l, r) => newtype_spans_expr(*l) + newtype_spans_expr(*r),
        ExprKind::AssignOp(_, l, r) => newtype_spans_expr(*l) + newtype_spans_expr(*r),
        ExprKind::BinOp(_, l, r) => newtype_spans_expr(*l) + newtype_spans_expr(*r),
        ExprKind::Block(b) => newtype_spans_block(*b),
        ExprKind::Call(l, r) => newtype_spans_expr(*l) + newtype_spans_expr(*r),
        ExprKind::If(c, b, els) => newtype_spans_expr(*c) + newtype_spans_block(*b) + match els {
            Some(x) => newtype_spans_expr(*x),
            None => Seq::empty(),
        },
        ExprKind::Lit(_) => Seq::empty(),
        ExprKind::Paren(x) => newtype_spans_expr(*x),
        ExprKind::Path(_) => Seq::empty(),
        ExprKind::Tuple(es) => newtype_spans_exprs(es@),
        ExprKind::UnOp(_, x) => newtype_spans_expr(*x),
        ExprKind::While(c, b) => newtype_spans_expr(*c) + newtype_spans_block(*b),
    }
}

pub open spec fn newtype_spans_exprs(es: Seq<Expr>) -> Seq<Span>
    decreases es,
{
    if es.len() == 0 {
        Seq::empty()
    } else {
        newtype_spans_exprs(es.subrange(0, es.len() - 1)) + newtype_spans_expr(es[es.len() - 1])
    }
}

pub open spec fn newtype_spans_stmt(s: Stmt) -> Seq<Span>
    decreases s,
{
    match s.kind {
        StmtKind::Empty => Seq::empty(),
        StmtKind::Expr(e) => newtype_spans_expr(*e),
        StmtKind::Item(it) => newtype_spans_item(*it),
        StmtKind::Local(_, _, e) => newtype_spans_expr(*e),
        StmtKind::Semi(e) => newtype_spans_expr(*e),
    }
}

pub open spec fn newtype_spans_stmts(ss: Seq<Stmt>) -> Seq<Span>
    decreases ss,
{
    if ss.len() == 0 {
        Seq::empty()
    } else {
        newtype_spans_stmts(ss.subrange(0, ss.len() - 1)) + newtype_spans_stmt(ss[ss.len() - 1])
    }
}

pub open spec fn newtype_spans_block(b: Block) -> Seq<Span>
    decreases b,
{
    newtype_spans_stmts(b.stmts@)
}

pub open spec fn newtype_spans_item(it: Item) -> Seq<Span>
    decreases it,
{
    (if it.kind is Ty {
        seq![it.span]
    } else {
        Seq::empty()
    }) + match it.kind {
        ItemKind::Callable(_, b) => newtype_spans_block(*b),
        ItemKind::Namespace(_, items) => newtype_spans_items(items@),
        _ => Seq::empty(),
    }
}

pub open spec fn newtype_spans_items(its: Seq<Item>) -> Seq<Span>
    decreases its,
{
    if its.len() == 0 {
        Seq::empty()
    } else {
        newtype_spans_items(its.subrange(0, its.len() - 1)) + newtype_spans_item(its[its.len() - 1])
    }
}

/// One deprecated-newtype diagnostic at `level` over each of `spans`.
pub open spec fn newtype_lints(level: LintLevel, spans: Seq<Span>) -> Seq<LintView> {
    spans.map_values(|sp: Span| lint_of(AstLint::DeprecatedNewtype, level, sp, Seq::empty()))
}

proof fn lemma_newtype_lints_add(level: LintLevel, a: Seq<Span>, b: Seq<Span>)
    ensures
        newtype_lints(level, a + b) == newtype_lints(level, a) + newtype_lints(level, b),
{
    assert(newtype_lints(level, a + b) =~= newtype_lints(level, a) + newtype_lints(level, b));
}

proof fn lemma_of_kind_add(a: Seq<LintView>, b: Seq<LintView>, kind: AstLint)
    ensures
        of_kind(a + b, kind) == of_kind(a, kind) + of_kind(b, kind),
{
    Seq::filter_distributes_over_add(a, b, |l: LintView| l.kind == kind);
}

/// `hook + rest`, where `hook` holds no deprecated-newtype diagnostic.
proof fn lemma_skip_hook(c: CombinedAstLints, hook: Seq<LintView>, rest: Seq<LintView>, spans: Seq<Span>)
    requires
        of_kind(hook, AstLint::DeprecatedNewtype) == Seq::<LintView>::empty(),
        of_kind(rest, AstLint::DeprecatedNewtype) == newtype_lints(c.deprecated_newtype.level, spans),
    ensures
        of_kind(hook + rest, AstLint::DeprecatedNewtype) == newtype_lints(c.deprecated_newtype.level, spans),
{
    lemma_of_kind_add(hook, rest, AstLint::DeprecatedNewtype);
    assert(Seq::<LintView>::empty() + newtype_lints(c.deprecated_newtype.level, spans) =~= newtype_lints(
        c.deprecated_newtype.level,
        spans,
    ));
}

/// Two consecutive parts of a walk.
proof fn lemma_join(level: LintLevel, a: Seq<LintView>, b: Seq<LintView>, sa: Seq<Span>, sb: Seq<Span>)
    requires
        of_kind(a, AstLint::DeprecatedNewtype) == newtype_lints(level, sa),
        of_kind(b, AstLint::DeprecatedNewtype) == newtype_lints(level, sb),
    ensures
        of_kind(a + b, AstLint::DeprecatedNewtype) == newtype_lints(level, sa + sb),
{
    lemma_of_kind_add(a, b, AstLint::DeprecatedNewtype);
    lemma_newtype_lints_add(level, sa, sb);
}

proof fn lemma_empty_walk(level: LintLevel)
    ensures
        of_kind(Seq::empty(), AstLint::DeprecatedNewtype) == newtype_lints(level, Seq::empty()),
{
    lemma_of_kind_none(Seq::empty(), AstLint::DeprecatedNewtype);
    assert(newtype_lints(level, Seq::empty()) =~= Seq::<LintView>::empty());
}

proof fn lemma_hooks_without_newtype(c: CombinedAstLints, e: Expr, s: Stmt, b: Block)
    ensures
        of_kind(c.expr_hook(e), AstLint::DeprecatedNewtype) == Seq::<LintView>::empty(),
        of_kind(c.stmt_hook(s), AstLint::DeprecatedNewtype) == Seq::<LintView>::empty(),
        of_kind(c.block_hook(b), AstLint::DeprecatedNewtype) == Seq::<LintView>::empty(),
{
    let dz = when_enabled(c.division_by_zero.level, c.division_by_zero.expr_lints(e));
    let np = when_enabled(c.needless_parens.level, c.needless_parens.expr_lints(e));
    lemma_needless_parens_kind(c.needless_parens, e);
    lemma_of_kind_none(dz, AstLint::DeprecatedNewtype);
    lemma_of_kind_none(np, AstLint::DeprecatedNewtype);
    lemma_of_kind_add(dz, np, AstLint::DeprecatedNewtype);
    assert(Seq::<LintView>::empty() + Seq::<LintView>::empty() =~= Seq::<LintView>::empty());
    lemma_of_kind_none(c.stmt_hook(s), AstLint::DeprecatedNewtype);
    lemma_of_kind_none(c.block_hook(b), AstLint::DeprecatedNewtype);
}

/// Joins the parts of the walk of an `if`, once each part is known.
proof fn lemma_newtypes_if(c: CombinedAstLints, e: Expr)
    requires
        e.kind is If,
        ({
            let x = *e.kind->If_0;
            let b = *e.kind->If_1;
            let lv = c.deprecated_newtype.level;
            &&& of_kind(c.expr_tree(x), AstLint::DeprecatedNewtype) == newtype_lints(lv, newtype_spans_expr(x))
            &&& of_kind(c.block_tree(b), AstLint::DeprecatedNewtype) == newtype_lints(lv, newtype_spans_block(b))
            &&& e.kind->If_2 matches Some(y) ==> of_kind(c.expr_tree(*y), AstLint::DeprecatedNewtype)
                == newtype_lints(lv, newtype_spans_expr(*y))
        }),
    ensures
        of_kind(c.expr_tree(e), AstLint::DeprecatedNewtype) == newtype_lints(
            c.deprecated_newtype.level,
            newtype_spans_expr(e),
        ),
{
    let lv = c.deprecated_newtype.level;
    let x = *e.kind->If_0;
    let b = *e.kind->If_1;
    let els = e.kind->If_2;
    lemma_hooks_without_newtype(c, e, arbitrary(), arbitrary());
    lemma_empty_walk(lv);
    lemma_join(lv, c.expr_tree(x), c.block_tree(b), newtype_spans_expr(x), newtype_spans_block(b));
    let tail = match els {
        Some(y) => c.expr_tree(*y),
        None => Seq::empty(),
    };
    let tail_spans = match els {
        Some(y) => newtype_spans_expr(*y),
        None => Seq::empty(),
    };
    lemma_join(lv, c.expr_tree(x) + c.block_tree(b), tail, newtype_spans_expr(x) + newtype_spans_block(b), tail_spans);
    lemma_skip_hook(c, c.expr_hook(e), c.expr_tree(x) + c.block_tree(b) + tail, newtype_spans_expr(e));
}

#[verifier::rlimit(50)]
proof fn lemma_newtypes_expr(c: CombinedAstLints, e: Expr)
    requires
        c.deprecated_newtype.level != LintLevel::Allow,
    ensures
        of_kind(c.expr_tree(e), AstLint::DeprecatedNewtype) == newtype_lints(
            c.deprecated_newtype.level,
            newtype_spans_expr(e),
        ),
    decreases e,
{
    let lv = c.deprecated_newtype.level;
    let hook = c.expr_hook(e);
    lemma_hooks_without_newtype(c, e, arbitrary(), arbitrary());
    lemma_empty_walk(lv);
    match e.kind {
        ExprKind::Assign(l, r) | ExprKind::AssignOp(_, l, r) | ExprKind::BinOp(_, l, r) | ExprKind::Call(l, r) => {
            lemma_newtypes_expr(c, *l);
            lemma_newtypes_expr(c, *r);
            lemma_join(lv, c.expr_tree(*l), c.expr_tree(*r), newtype_spans_expr(*l), newtype_spans_expr(*r));
            lemma_skip_hook(c, hook, c.expr_tree(*l) + c.expr_tree(*r), newtype_spans_expr(e));
        },
        ExprKind::Block(b) => {
            lemma_newtypes_block(c, *b);
            lemma_skip_hook(c, hook, c.block_tree(*b), newtype_spans_expr(e));
        },
        ExprKind::If(x, b, els) => {
            lemma_newtypes_expr(c, *x);
            lemma_newtypes_block(c, *b);
            match els {
                Some(y) => lemma_newtypes_expr(c, *y),
                None => {},
            }
            lemma_newtypes_if(c, e);
        },
        ExprKind::Paren(x) | ExprKind::UnOp(_, x) => {
            lemma_newtypes_expr(c, *x);
            lemma_skip_hook(c, hook, c.expr_tree(*x), newtype_spans_expr(e));
        },
        ExprKind::Tuple(es) => {
            lemma_newtypes_exprs(c, es@);
            lemma_skip_hook(c, hook, c.exprs_tree(es@), newtype_spans_expr(e));
        },
        ExprKind::While(x, b) => {
            lemma_newtypes_expr(c, *x);
            lemma_newtypes_block(c, *b);
            lemma_join(lv, c.expr_tree(*x), c.block_tree(*b), newtype_spans_expr(*x), newtype_spans_block(*b));
            lemma_skip_hook(c, hook, c.expr_tree(*x) + c.block_tree(*b), newtype_spans_expr(e));
        },
        ExprKind::Lit(_) | ExprKind::Path(_) => {
            lemma_skip_hook(c, hook, Seq::empty(), newtype_spans_expr(e));
        },
    }
}

proof fn lemma_newtypes_exprs(c: CombinedAstLints, es: Seq<Expr>)
    requires
        c.deprecated_newtype.level != LintLevel::Allow,
    ensures
        of_kind(c.exprs_tree(es), AstLint::DeprecatedNewtype) == newtype_lints(
            c.deprecated_newtype.level,
            newtype_spans_exprs(es),
        ),
    decreases es,
{
    lemma_empty_walk(c.deprecated_newtype.level);
    if es.len() > 0 {
        let init = es.subrange(0, es.len() - 1);
        let x = es[es.len() - 1];
        lemma_newtypes_exprs(c, init);
        lemma_newtypes_expr(c, x);
        lemma_join(
            c.deprecated_newtype.level,
            c.exprs_tree(init),
            c.expr_tree(x),
            newtype_spans_exprs(init),
            newtype_spans_expr(x),
        );
    }
}

proof fn lemma_newtypes_stmt(c: CombinedAstLints, s: Stmt)
    requires
        c.deprecated_newtype.level != LintLevel::Allow,
    ensures
        of_kind(c.stmt_tree(s), AstLint::DeprecatedNewtype) == newtype_lints(
            c.deprecated_newtype.level,
            newtype_spans_stmt(s),
        ),
    decreases s,
{
    lemma_hooks_without_newtype(c, arbitrary(), s, arbitrary());
    lemma_empty_walk(c.deprecated_newtype.level);
    match s.kind {
        StmtKind::Expr(e) | StmtKind::Local(_, _, e) | StmtKind::Semi(e) => lemma_newtypes_expr(c, *e),
        StmtKind::Item(it) => lemma_newtypes_item(c, *it),
        StmtKind::Empty => {},
    }
    let rest = match s.kind {
        StmtKind::Empty => Seq::empty(),
        StmtKind::Expr(e) => c.expr_tree(*e),
        StmtKind::Item(it) => c.item_tree(*it),
        StmtKind::Local(_, _, e) => c.expr_tree(*e),
        StmtKind::Semi(e) => c.expr_tree(*e),
    };
    assert(c.stmt_tree(s) == c.stmt_hook(s) + rest);
    lemma_skip_hook(c, c.stmt_hook(s), rest, newtype_spans_stmt(s));
}

proof fn lemma_newtypes_stmts(c: CombinedAstLints, ss: Seq<Stmt>)
    requires
        c.deprecated_newtype.level != LintLevel::Allow,
    ensures
        of_kind(c.stmts_tree(ss), AstLint::DeprecatedNewtype) == newtype_lints(
            c.deprecated_newtype.level,
            newtype_spans_stmts(ss),
        ),
    decreases ss,
{
    lemma_empty_walk(c.deprecated_newtype.level);
    if ss.len() > 0 {
        let init = ss.subrange(0, ss.len() - 1);
        let x = ss[ss.len() - 1];
        lemma_newtypes_stmts(c, init);
        lemma_newtypes_stmt(c, x);
        lemma_join(
            c.deprecated_newtype.level,
            c.stmts_tree(init),
            c.stmt_tree(x),
            newtype_spans_stmts(init),
            newtype_spans_stmt(x),
        );
    }
}

proof fn lemma_newtypes_block(c: CombinedAstLints, b: Block)
    requires
        c.deprecated_newtype.level != LintLevel::Allow,
    ensures
        of_kind(c.block_tree(b), AstLint::DeprecatedNewtype) == newtype_lints(
            c.deprecated_newtype.level,
            newtype_spans_block(b),
        ),
    decreases b,
{
    lemma_hooks_without_newtype(c, arbitrary(), arbitrary(), b);
    lemma_newtypes_stmts(c, b.stmts@);
    lemma_skip_hook(c, c.block_hook(b), c.stmts_tree(b.stmts@), newtype_spans_block(b));
}

proof fn lemma_newtypes_item(c: CombinedAstLints, it: Item)
    requires
        c.deprecated_newtype.level != LintLevel::Allow,
    ensures
        of_kind(c.item_tree(it), AstLint::DeprecatedNewtype) == newtype_lints(
            c.deprecated_newtype.level,
            newtype_spans_item(it),
        ),
    decreases it,
{
    let lv = c.deprecated_newtype.level;
    lemma_empty_walk(lv);
    lemma_deprecated_newtype_exact(c, it);
    let own: Seq<Span> = if it.kind is Ty {
        seq![it.span]
    } else {
        Seq::empty()
    };
    assert(of_kind(c.item_hook(it), AstLint::DeprecatedNewtype) =~= newtype_lints(lv, own));
    match it.kind {
        ItemKind::Callable(_, b) => {
            lemma_newtypes_block(c, *b);
            lemma_join(lv, c.item_hook(it), c.block_tree(*b), own, newtype_spans_block(*b));
        },
        ItemKind::Namespace(_, items) => {
            lemma_newtypes_items(c, items@);
            lemma_join(lv, c.item_hook(it), c.items_tree(items@), own, newtype_spans_items(items@));
        },
        _ => {
            lemma_join(lv, c.item_hook(it), Seq::empty(), own, Seq::empty());
            assert(c.item_hook(it) + Seq::empty() =~= c.item_hook(it));
            assert(own + Seq::empty() =~= own);
        },
    }
}

proof fn lemma_newtypes_items(c: CombinedAstLints, its: Seq<Item>)
    requires
        c.deprecated_newtype.level != LintLevel::Allow,
    ensures
        of_kind(c.items_tree(its), AstLint::DeprecatedNewtype) == newtype_lints(
            c.deprecated_newtype.level,
            newtype_spans_items(its),
        ),
    decreases its,
{
    lemma_empty_walk(c.deprecated_newtype.level);
    if its.len() > 0 {
        let init = its.subrange(0, its.len() - 1);
        let x = its[its.len() - 1];
        lemma_newtypes_items(c, init);
        lemma_newtypes_item(c, x);
        lemma_join(
            c.deprecated_newtype.level,
            c.items_tree(init),
            c.item_tree(x),
            newtype_spans_items(init),
            newtype_spans_item(x),
        );
    }
}

/// With the rule enabled, linting a package yields, wherever an item
/// declared with `newtype` stands in the tree, exactly one deprecated-newtype
/// diagnostic spanning it, in pre-order, and no others of that rule.
pub proof fn lemma_every_newtype_reported_once(c: CombinedAstLints, p: Package)
    requires
        c.deprecated_newtype.level != LintLevel::Allow,
    ensures
        of_kind(c.package_tree(p), AstLint::DeprecatedNewtype) == newtype_lints(
            c.deprecated_newtype.level,
            newtype_spans_items(p.items@),
        ),
        of_kind(c.package_tree(p), AstLint::DeprecatedNewtype).len() == newtype_spans_items(p.items@).len(),
{
    lemma_newtypes_items(c, p.items@);
}

/// Linting the same tree twice gives the same diagnostics, in the same order.
pub proof fn lemma_run_deterministic(c: CombinedAstLints, p: Package, first: Seq<LintView>, second: Seq<LintView>)
    requires
        first == c.package_tree(p),
        second == c.package_tree(p),
    ensures
        first == second,
{
}

} // verus!

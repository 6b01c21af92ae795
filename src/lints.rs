use crate::ast::{wf_expr, wf_stmt, BinOp, Block, Expr, ExprKind, Item, ItemKind, Lit, Stmt, StmtKind};
use crate::lint::{edit_view, lint_of, lints_view, AstLint, Lint, LintLevel, LintView};
use crate::span::Span;
use vstd::prelude::*;

verus! {

/// Appending one diagnostic appends its view.
pub proof fn lemma_lints_view_push(s: Seq<Lint>, l: Lint)
    ensures
        lints_view(s.push(l)) == lints_view(s).push(l@),
{
    assert(lints_view(s.push(l)) =~= lints_view(s).push(l@));
}

/// Appending no diagnostics leaves a sequence as it is.
pub proof fn lemma_append_nothing(s: Seq<LintView>)
    ensures
        s + Seq::<LintView>::empty() == s,
{
    assert(s + Seq::<LintView>::empty() =~= s);
}

/// The hooks a check offers to the walk, one per kind of node. Each hook
/// appends to `buffer` exactly the diagnostics that its `*_lints` function
/// names for that node; a check without an interest in a kind of node names
/// none there.
pub trait AstLintPass {
    spec fn expr_lints(&self, e: Expr) -> Seq<LintView>;

    spec fn stmt_lints(&self, s: Stmt) -> Seq<LintView>;

    spec fn block_lints(&self, b: Block) -> Seq<LintView>;

    spec fn item_lints(&self, it: Item) -> Seq<LintView>;

    fn check_expr(&self, expr: &Expr, buffer: &mut Vec<Lint>)
        requires
            wf_expr(*expr),
        ensures
            lints_view(final(buffer)@) == lints_view(old(buffer)@) + self.expr_lints(*expr),
    ;

    fn check_stmt(&self, stmt: &Stmt, buffer: &mut Vec<Lint>)
        requires
            wf_stmt(*stmt),
        ensures
            lints_view(final(buffer)@) == lints_view(old(buffer)@) + self.stmt_lints(*stmt),
    ;

    fn check_block(&self, block: &Block, buffer: &mut Vec<Lint>)
        ensures
            lints_view(final(buffer)@) == lints_view(old(buffer)@) + self.block_lints(*block),
    ;

    fn check_item(&self, item: &Item, buffer: &mut Vec<Lint>)
        ensures
            lints_view(final(buffer)@) == lints_view(old(buffer)@) + self.item_lints(*item),
    ;
}

/// Reports `a / 0` where the divisor is written as the integer literal zero.
pub struct DivisionByZero {
    pub level: LintLevel,
}

/// Reports parentheses that cannot change how an expression parses.
pub struct NeedlessParens {
    pub level: LintLevel,
}

/// Reports each run of consecutive empty statements in a block.
pub struct RedundantSemicolons {
    pub level: LintLevel,
}

/// Reports type declarations written with `newtype`.
pub struct DeprecatedNewtype {
    pub level: LintLevel,
}

/// `e` is a division whose right operand is the integer literal `0` itself.
pub open spec fn divides_by_literal_zero(e: Expr) -> bool {
    match e.kind {
        ExprKind::BinOp(BinOp::Div, _, rhs) => match rhs.kind {
            ExprKind::Lit(Lit::Int(v)) => v == 0,
            _ => false,
        },
        _ => false,
    }
}

impl AstLintPass for DivisionByZero {
    open spec fn expr_lints(&self, e: Expr) -> Seq<LintView> {
        if divides_by_literal_zero(e) {
            seq![lint_of(AstLint::DivisionByZero, self.level, e.span, Seq::empty())]
        } else {
            Seq::empty()
        }
    }

    open spec fn stmt_lints(&self, s: Stmt) -> Seq<LintView> {
        Seq::empty()
    }

    open spec fn block_lints(&self, b: Block) -> Seq<LintView> {
        Seq::empty()
    }

    open spec fn item_lints(&self, it: Item) -> Seq<LintView> {
        Seq::empty()
    }

    fn check_expr(&self, expr: &Expr, buffer: &mut Vec<Lint>) {
        proof {
            lemma_append_nothing(lints_view(old(buffer)@));
        }
        if let ExprKind::BinOp(BinOp::Div, _, rhs) = &expr.kind {
            if let ExprKind::Lit(Lit::Int(v)) = &rhs.kind {
                if *v == 0 {
                    let l = Lint::new(AstLint::DivisionByZero, self.level, expr.span, Vec::new());
                    proof {
                        lemma_lints_view_push(buffer@, l);
                        assert(l.code_action_edits@.map_values(|e: (String, Span)| edit_view(e))
                            =~= Seq::empty());
                    }
                    buffer.push(l);
                }
            }
        }
    }

    fn check_stmt(&self, stmt: &Stmt, buffer: &mut Vec<Lint>) {
        proof {
            lemma_append_nothing(lints_view(buffer@));
        }
    }

    fn check_block(&self, block: &Block, buffer: &mut Vec<Lint>) {
        proof {
            lemma_append_nothing(lints_view(buffer@));
        }
    }

    fn check_item(&self, item: &Item, buffer: &mut Vec<Lint>) {
        proof {
            lemma_append_nothing(lints_view(buffer@));
        }
    }
}

/// How tightly an expression binds; higher binds tighter.
pub open spec fn precedence_of(e: Expr) -> u8 {
    match e.kind {
        ExprKind::Lit(_) => 15,
        ExprKind::Paren(_) => 14,
        ExprKind::UnOp(_, _) => 13,
        ExprKind::BinOp(op, _, _) => match op {
            BinOp::Exp => 12,
            BinOp::Div | BinOp::Mod | BinOp::Mul => 10,
            BinOp::Add | BinOp::Sub => 9,
            BinOp::Shl | BinOp::Shr => 8,
            BinOp::AndB => 7,
            BinOp::XorB => 6,
            BinOp::OrB => 5,
            BinOp::Gt | BinOp::Gte | BinOp::Lt | BinOp::Lte | BinOp::Eq | BinOp::Neq => 4,
            BinOp::AndL => 3,
            BinOp::OrL => 2,
        },
        ExprKind::Assign(_, _) | ExprKind::AssignOp(_, _, _) => 1,
        _ => 0,
    }
}

pub fn precedence(expr: &Expr) -> (r: u8)
    ensures
        r == precedence_of(*expr),
        r <= 15,
{
    match &expr.kind {
        ExprKind::Lit(_) => 15,
        ExprKind::Paren(_) => 14,
        ExprKind::UnOp(_, _) => 13,
        ExprKind::BinOp(op, _, _) => match op {
            BinOp::Exp => 12,
            BinOp::Div | BinOp::Mod | BinOp::Mul => 10,
            BinOp::Add | BinOp::Sub => 9,
            BinOp::Shl | BinOp::Shr => 8,
            BinOp::AndB => 7,
            BinOp::XorB => 6,
            BinOp::OrB => 5,
            BinOp::Gt | BinOp::Gte | BinOp::Lt | BinOp::Lte | BinOp::Eq | BinOp::Neq => 4,
            BinOp::AndL => 3,
            BinOp::OrL => 2,
        },
        ExprKind::Assign(_, _) | ExprKind::AssignOp(_, _, _) => 1,
        _ => 0,
    }
}

/// Two deletions: the first and the last character of `span`.
pub open spec fn strip_delimiters(span: Span) -> Seq<(Seq<char>, Span)> {
    seq![
        (Seq::empty(), Span { lo: span.lo, hi: (span.lo + 1) as u32 }),
        (Seq::empty(), Span { lo: (span.hi - 1) as u32, hi: span.hi }),
    ]
}

/// The lint for a parenthesized `child`, if its inner expression binds
/// tighter than `parent`.
pub open spec fn paren_lints(level: LintLevel, parent: Expr, child: Expr) -> Seq<LintView> {
    match child.kind {
        ExprKind::Paren(inner) => if precedence_of(parent) < precedence_of(*inner) {
            seq![lint_of(AstLint::NeedlessParens, level, child.span, strip_delimiters(child.span))]
        } else {
            Seq::empty()
        },
        _ => Seq::empty(),
    }
}

impl NeedlessParens {
    /// The edits that remove the first and last characters of `span`.
    pub fn get_code_action_edits(span: Span) -> (r: Vec<(String, Span)>)
        requires
            span.lo < span.hi,
        ensures
            r@.map_values(|e: (String, Span)| edit_view(e)) == strip_delimiters(span),
    {
        let mut r: Vec<(String, Span)> = Vec::new();
        r.push((String::new(), Span { lo: span.lo, hi: span.lo + 1 }));
        r.push((String::new(), Span { lo: span.hi - 1, hi: span.hi }));
        assert(r@.map_values(|e: (String, Span)| edit_view(e)) =~= strip_delimiters(span));
        r
    }

    /// Reports `child` when it is parenthesized and what it encloses binds
    /// tighter than `parent`: then the parentheses cannot change the parse.
    fn push(&self, parent: &Expr, child: &Expr, buffer: &mut Vec<Lint>)
        requires
            wf_expr(*child),
        ensures
            lints_view(final(buffer)@) == lints_view(old(buffer)@) + paren_lints(self.level, *parent, *child),
    {
        proof {
            lemma_append_nothing(lints_view(old(buffer)@));
        }
        if let ExprKind::Paren(inner) = &child.kind {
            if precedence(parent) < precedence(inner) {
                let edits = Self::get_code_action_edits(child.span);
                let l = Lint::new(AstLint::NeedlessParens, self.level, child.span, edits);
                proof {
                    lemma_lints_view_push(buffer@, l);
                }
                buffer.push(l);
            }
        }
    }
}

impl AstLintPass for NeedlessParens {
    open spec fn expr_lints(&self, e: Expr) -> Seq<LintView> {
        match e.kind {
            ExprKind::BinOp(_, l, r) => paren_lints(self.level, e, *l) + paren_lints(self.level, e, *r),
            ExprKind::Assign(_, r) => paren_lints(self.level, e, *r),
            ExprKind::AssignOp(_, _, r) => paren_lints(self.level, e, *r),
            _ => Seq::empty(),
        }
    }

    open spec fn stmt_lints(&self, s: Stmt) -> Seq<LintView> {
        match s.kind {
            StmtKind::Local(_, _, init) => match init.kind {
                ExprKind::Paren(_) => seq![
                    lint_of(AstLint::NeedlessParens, self.level, init.span, strip_delimiters(init.span)),
                ],
                _ => Seq::empty(),
            },
            _ => Seq::empty(),
        }
    }

    open spec fn block_lints(&self, b: Block) -> Seq<LintView> {
        Seq::empty()
    }

    open spec fn item_lints(&self, it: Item) -> Seq<LintView> {
        Seq::empty()
    }

    fn check_expr(&self, expr: &Expr, buffer: &mut Vec<Lint>) {
        proof {
            lemma_append_nothing(lints_view(old(buffer)@));
        }
        match &expr.kind {
            ExprKind::BinOp(_, left, right) => {
                self.push(expr, left, buffer);
                self.push(expr, right, buffer);
                assert(lints_view(buffer@) =~= lints_view(old(buffer)@) + self.expr_lints(*expr));
            },
            ExprKind::Assign(_, right) => {
                self.push(expr, right, buffer);
            },
            ExprKind::AssignOp(_, _, right) => {
                self.push(expr, right, buffer);
            },
            _ => {},
        }
    }

    /// Parentheses around the whole initializer of a binding are always needless.
    fn check_stmt(&self, stmt: &Stmt, buffer: &mut Vec<Lint>) {
        proof {
            lemma_append_nothing(lints_view(old(buffer)@));
        }
        if let StmtKind::Local(_, _, right) = &stmt.kind {
            if let ExprKind::Paren(_) = &right.kind {
                let edits = Self::get_code_action_edits(right.span);
                let l = Lint::new(AstLint::NeedlessParens, self.level, right.span, edits);
                proof {
                    lemma_lints_view_push(buffer@, l);
                }
                buffer.push(l);
            }
        }
    }

    fn check_block(&self, block: &Block, buffer: &mut Vec<Lint>) {
        proof {
            lemma_append_nothing(lints_view(buffer@));
        }
    }

    fn check_item(&self, item: &Item, buffer: &mut Vec<Lint>) {
        proof {
            lemma_append_nothing(lints_view(buffer@));
        }
    }
}

pub open spec fn is_empty_stmt(s: Stmt) -> bool {
    s.kind is Empty
}

/// The maximal runs of consecutive empty statements of `s`, in order, each
/// as the indices of its first and last statement.
pub open spec fn empty_runs(s: Seq<Stmt>) -> Seq<(int, int)>
    decreases s.len(),
{
    if s.len() == 0 {
        Seq::empty()
    } else {
        let n = s.len() - 1;
        let r = empty_runs(s.take(n));
        if !is_empty_stmt(s[n]) {
            r
        } else if n > 0 && is_empty_stmt(s[n - 1]) {
            r.update(r.len() - 1, (r.last().0, n))
        } else {
            r.push((n, n))
        }
    }
}

/// From the start of statement `run.0` to the end of statement `run.1`.
pub open spec fn run_span(s: Seq<Stmt>, run: (int, int)) -> Span {
    Span { lo: s[run.0].span.lo, hi: s[run.1].span.hi }
}

/// The diagnostic for an accumulated run, with an edit that deletes all of it.
pub open spec fn semicolons_lint(level: LintLevel, span: Span) -> LintView {
    lint_of(AstLint::RedundantSemicolons, level, span, seq![(Seq::empty(), span)])
}

/// Statements `a..=b` are all empty, and neither neighbour of the range is.
pub open spec fn is_maximal_empty_run(s: Seq<Stmt>, a: int, b: int) -> bool {
    &&& 0 <= a <= b < s.len()
    &&& forall|k: int| a <= k <= b ==> is_empty_stmt(#[trigger] s[k])
    &&& (a == 0 || !is_empty_stmt(s[a - 1]))
    &&& (b == s.len() - 1 || !is_empty_stmt(s[b + 1]))
}

/// How many empty statements of `s` do not follow another empty statement.
pub open spec fn run_start_count(s: Seq<Stmt>) -> nat
    decreases s.len(),
{
    if s.len() == 0 {
        0
    } else {
        let n = s.len() - 1;
        run_start_count(s.take(n)) + if is_empty_stmt(s[n]) && (n == 0 || !is_empty_stmt(s[n - 1])) {
            1nat
        } else {
            0nat
        }
    }
}

proof fn lemma_empty_runs_shape(s: Seq<Stmt>)
    ensures
        ({
            let r = empty_runs(s);
            &&& r.len() == run_start_count(s)
            &&& forall|k: int| 0 <= k < r.len() ==> is_maximal_empty_run(s, #[trigger] r[k].0, r[k].1)
            &&& forall|k: int| 0 <= k < r.len() - 1 ==> #[trigger] r[k].1 < r[k + 1].0
            &&& (s.len() > 0 && is_empty_stmt(s[s.len() - 1])) ==> (r.len() > 0 && r.last().1
                == s.len() - 1)
        }),
    decreases s.len(),
{
    if s.len() > 0 {
        let n = s.len() - 1;
        let p = s.take(n);
        lemma_empty_runs_shape(p);
        let rp = empty_runs(p);
        let r = empty_runs(s);
        assert forall|k: int| 0 <= k < r.len() implies is_maximal_empty_run(s, #[trigger] r[k].0, r[k].1) by {
            let (a, b) = r[k];
            if k < rp.len() && rp[k] == r[k] {
                assert(is_maximal_empty_run(p, a, b));
                assert forall|j: int| a <= j <= b implies is_empty_stmt(#[trigger] s[j]) by {
                    assert(p[j] == s[j]);
                }
                if a > 0 {
                    assert(p[a - 1] == s[a - 1]);
                }
                if b < n - 1 {
                    assert(p[b + 1] == s[b + 1]);
                }
            } else {
                assert forall|j: int| a <= j <= b implies is_empty_stmt(#[trigger] s[j]) by {
                    if j < n {
                        assert(p[j] == s[j]);
                        assert(is_maximal_empty_run(p, rp[k].0, rp[k].1));
                    }
                }
                if a > 0 && a < n {
                    assert(p[a - 1] == s[a - 1]);
                    assert(is_maximal_empty_run(p, rp[k].0, rp[k].1));
                }
            }
        }
    }
}

/// A block yields one redundant-semicolons diagnostic per maximal run of
/// empty statements, in order, each spanning the run from its first to its
/// last empty statement.
pub proof fn lemma_semicolon_lints_cover_runs(rs: RedundantSemicolons, b: Block)
    ensures
        rs.block_lints(b).len() == run_start_count(b.stmts@),
        forall|k: int|
            0 <= k < rs.block_lints(b).len() ==> {
                let run = #[trigger] empty_runs(b.stmts@)[k];
                &&& is_maximal_empty_run(b.stmts@, run.0, run.1)
                &&& rs.block_lints(b)[k] == semicolons_lint(rs.level, run_span(b.stmts@, run))
            },
        forall|k: int|
            0 <= k < rs.block_lints(b).len() - 1 ==> #[trigger] empty_runs(b.stmts@)[k].1 < empty_runs(
                b.stmts@,
            )[k + 1].0,
{
    lemma_empty_runs_shape(b.stmts@);
}

impl RedundantSemicolons {
    /// Reports the run accumulated in `seq`, if any, and clears it.
    fn maybe_push(&self, seq: &mut Option<Span>, buffer: &mut Vec<Lint>)
        ensures
            *final(seq) == None::<Span>,
            lints_view(final(buffer)@) == lints_view(old(buffer)@) + match *old(seq) {
                Some(sp) => seq![semicolons_lint(self.level, sp)],
                None => Seq::empty(),
            },
    {
        proof {
            lemma_append_nothing(lints_view(old(buffer)@));
        }
        if let Some(span) = seq.take() {
            let mut edits: Vec<(String, Span)> = Vec::new();
            edits.push((String::new(), span));
            let l = Lint::new(AstLint::RedundantSemicolons, self.level, span, edits);
            proof {
                lemma_lints_view_push(buffer@, l);
                assert(edits@.map_values(|e: (String, Span)| edit_view(e)) =~= seq![(Seq::<char>::empty(), span)]);
            }
            buffer.push(l);
        }
    }

}

impl AstLintPass for RedundantSemicolons {
    open spec fn expr_lints(&self, e: Expr) -> Seq<LintView> {
        Seq::empty()
    }

    open spec fn stmt_lints(&self, s: Stmt) -> Seq<LintView> {
        Seq::empty()
    }

    open spec fn block_lints(&self, b: Block) -> Seq<LintView> {
        empty_runs(b.stmts@).map_values(|run: (int, int)| semicolons_lint(self.level, run_span(b.stmts@, run)))
    }

    open spec fn item_lints(&self, it: Item) -> Seq<LintView> {
        Seq::empty()
    }

    fn check_expr(&self, expr: &Expr, buffer: &mut Vec<Lint>) {
        proof {
            lemma_append_nothing(lints_view(buffer@));
        }
    }

    fn check_stmt(&self, stmt: &Stmt, buffer: &mut Vec<Lint>) {
        proof {
            lemma_append_nothing(lints_view(buffer@));
        }
    }

    /// Groups consecutive empty statements into one diagnostic per run,
    /// spanning from the first to the last of them.
    fn check_block(&self, block: &Block, buffer: &mut Vec<Lint>) {
        let ghost s = block.stmts@;
        let ghost old_view = lints_view(buffer@);
        let ghost f = |run: (int, int)| semicolons_lint(self.level, run_span(s, run));
        // `None` while no empty statement is pending; otherwise the span of the
        // current run of empty statements.
        let mut seq: Option<Span> = None;
        let mut i: usize = 0;
        proof {
            assert(s.take(0) =~= Seq::<Stmt>::empty());
            assert(old_view =~= old_view + empty_runs(s.take(0)).map_values(f));
        }
        while i < block.stmts.len()
            invariant
                0 <= i <= s.len(),
                s == block.stmts@,
                f == (|run: (int, int)| semicolons_lint(self.level, run_span(s, run))),
                i > 0 && is_empty_stmt(s[i - 1]) ==> {
                    let r = empty_runs(s.take(i as int));
                    &&& r.len() > 0
                    &&& seq == Some(run_span(s, r.last()))
                    &&& lints_view(buffer@) == old_view + r.drop_last().map_values(f)
                },
                !(i > 0 && is_empty_stmt(s[i - 1])) ==> {
                    &&& seq == None::<Span>
                    &&& lints_view(buffer@) == old_view + empty_runs(s.take(i as int)).map_values(f)
                },
            decreases s.len() - i,
        {
            let stmt = &block.stmts[i];
            let ghost r = empty_runs(s.take(i as int));
            proof {
                assert(s.take(i + 1).take(i as int) =~= s.take(i as int));
                lemma_empty_runs_shape(s.take(i as int));
            }
            if let StmtKind::Empty = stmt.kind {
                match seq {
                    None => {
                        seq = Some(stmt.span);
                        proof {
                            let r2 = empty_runs(s.take(i + 1));
                            assert(r2 == r.push((i as int, i as int)));
                            assert(r2.drop_last() =~= r);
                        }
                    },
                    Some(sp) => {
                        seq = Some(Span { lo: sp.lo, hi: stmt.span.hi });
                        proof {
                            let r2 = empty_runs(s.take(i + 1));
                            assert(r2.drop_last() =~= r.drop_last());
                        }
                    },
                }
            } else {
                proof {
                    if i > 0 && is_empty_stmt(s[i - 1]) {
                        assert(r =~= r.drop_last().push(r.last()));
                        assert(r.map_values(f) =~= r.drop_last().map_values(f).push(f(r.last())));
                    }
                }
                self.maybe_push(&mut seq, buffer);
                proof {
                    if i > 0 && is_empty_stmt(s[i - 1]) {
                        assert(lints_view(buffer@) =~= old_view + empty_runs(s.take(i + 1)).map_values(f));
                    }
                }
            }
            i = i + 1;
        }
        proof {
            let r = empty_runs(s.take(i as int));
            assert(s.take(i as int) =~= s);
            lemma_empty_runs_shape(s);
            if i > 0 && is_empty_stmt(s[i - 1]) {
                assert(r =~= r.drop_last().push(r.last()));
                assert(r.map_values(f) =~= r.drop_last().map_values(f).push(f(r.last())));
            }
        }
        self.maybe_push(&mut seq, buffer);
        proof {
            assert(lints_view(buffer@) =~= old_view + empty_runs(s).map_values(f));
        }
    }

    fn check_item(&self, item: &Item, buffer: &mut Vec<Lint>) {
        proof {
            lemma_append_nothing(lints_view(buffer@));
        }
    }
}

impl AstLintPass for DeprecatedNewtype {
    open spec fn expr_lints(&self, e: Expr) -> Seq<LintView> {
        Seq::empty()
    }

    open spec fn stmt_lints(&self, s: Stmt) -> Seq<LintView> {
        Seq::empty()
    }

    open spec fn block_lints(&self, b: Block) -> Seq<LintView> {
        Seq::empty()
    }

    open spec fn item_lints(&self, it: Item) -> Seq<LintView> {
        match it.kind {
            ItemKind::Ty(_, _) => seq![lint_of(AstLint::DeprecatedNewtype, self.level, it.span, Seq::empty())],
            _ => Seq::empty(),
        }
    }

    fn check_expr(&self, expr: &Expr, buffer: &mut Vec<Lint>) {
        proof {
            lemma_append_nothing(lints_view(buffer@));
        }
    }

    fn check_stmt(&self, stmt: &Stmt, buffer: &mut Vec<Lint>) {
        proof {
            lemma_append_nothing(lints_view(buffer@));
        }
    }

    fn check_block(&self, block: &Block, buffer: &mut Vec<Lint>) {
        proof {
            lemma_append_nothing(lints_view(buffer@));
        }
    }

    fn check_item(&self, item: &Item, buffer: &mut Vec<Lint>) {
        proof {
            lemma_append_nothing(lints_view(old(buffer)@));
        }
        if let ItemKind::Ty(_, _) = &item.kind {
            let l = Lint::new(AstLint::DeprecatedNewtype, self.level, item.span, Vec::new());
            proof {
                lemma_lints_view_push(buffer@, l);
                assert(l.code_action_edits@.map_values(|e: (String, Span)| edit_view(e)) =~= Seq::empty());
            }
            buffer.push(l);
        }
    }
}

} // verus!

use crate::ast::{wf_block, wf_expr, wf_item, wf_package, wf_stmt, Block, Expr, ExprKind, Item, ItemKind, Package, Stmt, StmtKind};
use crate::lint::{default_level_of, lints_view, AstLint, Lint, LintLevel, LintView};
use crate::lints::{AstLintPass, DeprecatedNewtype, DivisionByZero, NeedlessParens, RedundantSemicolons};
use vstd::prelude::*;

verus! {

/// The level of rule `kind` after the overrides in `config`: the last entry
/// for `kind` wins, and without one the rule keeps its default level.
pub open spec fn configured_level(config: Seq<(AstLint, LintLevel)>, kind: AstLint) -> LintLevel
    decreases config.len(),
{
    if config.len() == 0 {
        default_level_of(kind)
    } else if config.last().0 == kind {
        config.last().1
    } else {
        configured_level(config.drop_last(), kind)
    }
}

/// Every check, each at its level, in the order in which they are run at a node.
pub struct CombinedAstLints {
    pub division_by_zero: DivisionByZero,
    pub needless_parens: NeedlessParens,
    pub redundant_semicolons: RedundantSemicolons,
    pub deprecated_newtype: DeprecatedNewtype,
}

/// The diagnostics of a check, or none when its rule is at `Allow`.
pub open spec fn when_enabled(level: LintLevel, lints: Seq<LintView>) -> Seq<LintView> {
    if level != LintLevel::Allow {
        lints
    } else {
        Seq::empty()
    }
}

impl CombinedAstLints {
    pub open spec fn levels(self) -> (LintLevel, LintLevel, LintLevel, LintLevel) {
        (
            self.division_by_zero.level,
            self.needless_parens.level,
            self.redundant_semicolons.level,
            self.deprecated_newtype.level,
        )
    }

    /// The checks at the given levels.
    pub fn new(
        division_by_zero: LintLevel,
        needless_parens: LintLevel,
        redundant_semicolons: LintLevel,
        deprecated_newtype: LintLevel,
    ) -> (r: CombinedAstLints)
        ensures
            r.levels() == (division_by_zero, needless_parens, redundant_semicolons, deprecated_newtype),
    {
        CombinedAstLints {
            division_by_zero: DivisionByZero { level: division_by_zero },
            needless_parens: NeedlessParens { level: needless_parens },
            redundant_semicolons: RedundantSemicolons { level: redundant_semicolons },
            deprecated_newtype: DeprecatedNewtype { level: deprecated_newtype },
        }
    }

    /// Sets the level of rule `kind`, leaving the others as they are.
    pub fn set_level(&mut self, kind: AstLint, level: LintLevel)
        ensures
            final(self).levels() == match kind {
                AstLint::DivisionByZero => (level, old(self).levels().1, old(self).levels().2, old(self).levels().3),
                AstLint::NeedlessParens => (old(self).levels().0, level, old(self).levels().2, old(self).levels().3),
                AstLint::RedundantSemicolons => (old(self).levels().0, old(self).levels().1, level, old(self).levels().3),
                AstLint::DeprecatedNewtype => (old(self).levels().0, old(self).levels().1, old(self).levels().2, level),
            },
    {
        match kind {
            AstLint::DivisionByZero => self.division_by_zero.level = level,
            AstLint::NeedlessParens => self.needless_parens.level = level,
            AstLint::RedundantSemicolons => self.redundant_semicolons.level = level,
            AstLint::DeprecatedNewtype => self.deprecated_newtype.level = level,
        }
    }

    /// The checks at their default levels, overridden by `config` in order.
    pub fn from_config(config: &Vec<(AstLint, LintLevel)>) -> (r: CombinedAstLints)
        ensures
            r.levels() == (
                configured_level(config@, AstLint::DivisionByZero),
                configured_level(config@, AstLint::NeedlessParens),
                configured_level(config@, AstLint::RedundantSemicolons),
                configured_level(config@, AstLint::DeprecatedNewtype),
            ),
    {
        let mut r = CombinedAstLints::new(
            AstLint::DivisionByZero.default_level(),
            AstLint::NeedlessParens.default_level(),
            AstLint::RedundantSemicolons.default_level(),
            AstLint::DeprecatedNewtype.default_level(),
        );
        let mut i: usize = 0;
        while i < config.len()
            invariant
                0 <= i <= config@.len(),
                r.levels() == (
                    configured_level(config@.take(i as int), AstLint::DivisionByZero),
                    configured_level(config@.take(i as int), AstLint::NeedlessParens),
                    configured_level(config@.take(i as int), AstLint::RedundantSemicolons),
                    configured_level(config@.take(i as int), AstLint::DeprecatedNewtype),
                ),
            decreases config@.len() - i,
        {
            let (kind, level) = config[i];
            r.set_level(kind, level);
            proof {
                assert(config@.take(i + 1).drop_last() =~= config@.take(i as int));
            }
            i = i + 1;
        }
        proof {
            assert(config@.take(i as int) =~= config@);
        }
        r
    }

    /// Runs the checks on `expr`, then walks its operands in source order.
    pub fn visit_expr(&self, expr: &Expr, buffer: &mut Vec<Lint>)
        requires
            wf_expr(*expr),
        ensures
            lints_view(final(buffer)@) == lints_view(old(buffer)@) + self.expr_tree(*expr),
        decreases *expr,
    {
        let ghost start = lints_view(buffer@);
        self.check_expr(expr, buffer);
        let ghost mid = lints_view(buffer@);
        match &expr.kind {
            ExprKind::Assign(l, r) | ExprKind::AssignOp(_, l, r) | ExprKind::BinOp(_, l, r) | ExprKind::Call(
                l,
                r,
            ) => {
                self.visit_expr(l, buffer);
                self.visit_expr(r, buffer);
                assert(lints_view(buffer@) =~= mid + (self.expr_tree(**l) + self.expr_tree(**r)));
            },
            ExprKind::Block(b) => {
                self.visit_block(b, buffer);
            },
            ExprKind::If(c, b, els) => {
                self.visit_expr(c, buffer);
                self.visit_block(b, buffer);
                match els {
                    Some(x) => self.visit_expr(x, buffer),
                    None => {},
                }
                assert(lints_view(buffer@) =~= mid + (self.expr_tree(**c) + self.block_tree(**b) + match *els {
                    Some(x) => self.expr_tree(*x),
                    None => Seq::empty(),
                }));
            },
            ExprKind::Paren(x) | ExprKind::UnOp(_, x) => {
                self.visit_expr(x, buffer);
            },
            ExprKind::Tuple(es) => {
                self.visit_exprs(es, buffer);
            },
            ExprKind::While(c, b) => {
                self.visit_expr(c, buffer);
                self.visit_block(b, buffer);
                assert(lints_view(buffer@) =~= mid + (self.expr_tree(**c) + self.block_tree(**b)));
            },
            ExprKind::Lit(_) | ExprKind::Path(_) => {
                assert(lints_view(buffer@) =~= mid + Seq::<LintView>::empty());
            },
        }
        assert(lints_view(buffer@) =~= start + self.expr_tree(*expr));
    }

    /// Walks `es` in order.
    pub fn visit_exprs(&self, es: &Vec<Expr>, buffer: &mut Vec<Lint>)
        requires
            forall|i: int| 0 <= i < es@.len() ==> wf_expr(#[trigger] es@[i]),
        ensures
            lints_view(final(buffer)@) == lints_view(old(buffer)@) + self.exprs_tree(es@),
        decreases *es,
    {
        let ghost start = lints_view(buffer@);
        let mut i: usize = 0;
        assert(es@.subrange(0, 0) =~= Seq::<Expr>::empty());
        assert(lints_view(buffer@) =~= start + self.exprs_tree(es@.subrange(0, 0)));
        while i < es.len()
            invariant
                0 <= i <= es@.len(),
                forall|i: int| 0 <= i < es@.len() ==> wf_expr(#[trigger] es@[i]),
                lints_view(buffer@) == start + self.exprs_tree(es@.subrange(0, i as int)),
            decreases es@.len() - i,
        {
            self.visit_expr(&es[i], buffer);
            assert(es@.subrange(0, i + 1).subrange(0, i as int) =~= es@.subrange(0, i as int));
            assert(lints_view(buffer@) =~= start + self.exprs_tree(es@.subrange(0, i + 1)));
            i = i + 1;
        }
        assert(es@.subrange(0, i as int) =~= es@);
    }

    /// Runs the checks on `stmt`, then walks what it holds.
    pub fn visit_stmt(&self, stmt: &Stmt, buffer: &mut Vec<Lint>)
        requires
            wf_stmt(*stmt),
        ensures
            lints_view(final(buffer)@) == lints_view(old(buffer)@) + self.stmt_tree(*stmt),
        decreases *stmt,
    {
        let ghost start = lints_view(buffer@);
        self.check_stmt(stmt, buffer);
        let ghost mid = lints_view(buffer@);
        match &stmt.kind {
            StmtKind::Empty => {
                assert(lints_view(buffer@) =~= mid + Seq::<LintView>::empty());
            },
            StmtKind::Expr(e) | StmtKind::Local(_, _, e) | StmtKind::Semi(e) => {
                self.visit_expr(e, buffer);
            },
            StmtKind::Item(it) => {
                self.visit_item(it, buffer);
            },
        }
        assert(lints_view(buffer@) =~= start + self.stmt_tree(*stmt));
    }

    /// Runs the checks on `block`, then walks its statements in order.
    pub fn visit_block(&self, block: &Block, buffer: &mut Vec<Lint>)
        requires
            wf_block(*block),
        ensures
            lints_view(final(buffer)@) == lints_view(old(buffer)@) + self.block_tree(*block),
        decreases *block,
    {
        let ghost start = lints_view(buffer@);
        self.check_block(block, buffer);
        let ghost mid = lints_view(buffer@);
        let ss = &block.stmts;
        let mut i: usize = 0;
        assert(ss@.subrange(0, 0) =~= Seq::<Stmt>::empty());
        assert(lints_view(buffer@) =~= mid + self.stmts_tree(ss@.subrange(0, 0)));
        while i < ss.len()
            invariant
                0 <= i <= ss@.len(),
                wf_block(*block),
                ss == block.stmts,
                lints_view(buffer@) == mid + self.stmts_tree(ss@.subrange(0, i as int)),
            decreases ss@.len() - i,
        {
            assert(wf_stmt(ss@[i as int]));
            self.visit_stmt(&ss[i], buffer);
            assert(ss@.subrange(0, i + 1).subrange(0, i as int) =~= ss@.subrange(0, i as int));
            assert(lints_view(buffer@) =~= mid + self.stmts_tree(ss@.subrange(0, i + 1)));
            i = i + 1;
        }
        assert(ss@.subrange(0, i as int) =~= ss@);
        assert(lints_view(buffer@) =~= start + self.block_tree(*block));
    }

    /// Runs the checks on `item`, then walks what it declares.
    pub fn visit_item(&self, item: &Item, buffer: &mut Vec<Lint>)
        requires
            wf_item(*item),
        ensures
            lints_view(final(buffer)@) == lints_view(old(buffer)@) + self.item_tree(*item),
        decreases *item,
    {
        let ghost start = lints_view(buffer@);
        self.check_item(item, buffer);
        let ghost mid = lints_view(buffer@);
        match &item.kind {
            ItemKind::Callable(_, b) => {
                self.visit_block(b, buffer);
            },
            ItemKind::Namespace(_, items) => {
                self.visit_items(items, buffer);
            },
            _ => {
                assert(lints_view(buffer@) =~= mid + Seq::<LintView>::empty());
            },
        }
        assert(lints_view(buffer@) =~= start + self.item_tree(*item));
    }

    /// Walks `items` in order.
    pub fn visit_items(&self, items: &Vec<Item>, buffer: &mut Vec<Lint>)
        requires
            forall|i: int| 0 <= i < items@.len() ==> wf_item(#[trigger] items@[i]),
        ensures
            lints_view(final(buffer)@) == lints_view(old(buffer)@) + self.items_tree(items@),
        decreases *items,
    {
        let ghost start = lints_view(buffer@);
        let mut i: usize = 0;
        assert(items@.subrange(0, 0) =~= Seq::<Item>::empty());
        assert(lints_view(buffer@) =~= start + self.items_tree(items@.subrange(0, 0)));
        while i < items.len()
            invariant
                0 <= i <= items@.len(),
                forall|i: int| 0 <= i < items@.len() ==> wf_item(#[trigger] items@[i]),
                lints_view(buffer@) == start + self.items_tree(items@.subrange(0, i as int)),
            decreases items@.len() - i,
        {
            self.visit_item(&items[i], buffer);
            assert(items@.subrange(0, i + 1).subrange(0, i as int) =~= items@.subrange(0, i as int));
            assert(lints_view(buffer@) =~= start + self.items_tree(items@.subrange(0, i + 1)));
            i = i + 1;
        }
        assert(items@.subrange(0, i as int) =~= items@);
    }

    /// All diagnostics for `package`, in the order of a pre-order walk, and
    /// among the checks at one node in the order in which they are declared.
    pub fn run(&self, package: &Package) -> (r: Vec<Lint>)
        requires
            wf_package(*package),
        ensures
            lints_view(r@) == self.package_tree(*package),
    {
        let mut buffer: Vec<Lint> = Vec::new();
        assert(lints_view(buffer@) =~= Seq::<LintView>::empty());
        self.visit_items(&package.items, &mut buffer);
        assert(lints_view(buffer@) =~= self.package_tree(*package));
        buffer
    }

    pub open spec fn expr_hook(self, e: Expr) -> Seq<LintView> {
        when_enabled(self.division_by_zero.level, self.division_by_zero.expr_lints(e))
            + when_enabled(self.needless_parens.level, self.needless_parens.expr_lints(e))
    }

    pub open spec fn stmt_hook(self, s: Stmt) -> Seq<LintView> {
        when_enabled(self.needless_parens.level, self.needless_parens.stmt_lints(s))
    }

    pub open spec fn block_hook(self, b: Block) -> Seq<LintView> {
        when_enabled(self.redundant_semicolons.level, self.redundant_semicolons.block_lints(b))
    }

    pub open spec fn item_hook(self, it: Item) -> Seq<LintView> {
        when_enabled(self.deprecated_newtype.level, self.deprecated_newtype.item_lints(it))
    }

    /// The diagnostics of a pre-order walk of `e`.
    pub open spec fn expr_tree(self, e: Expr) -> Seq<LintView>
        decreases e,
    {
        self.expr_hook(e) + match e.kind {
            ExprKind::Assign(l, r) => self.expr_tree(*l) + self.expr_tree(*r),
            ExprKind::AssignOp(_, l, r) => self.expr_tree(*l) + self.expr_tree(*r),
            ExprKind::BinOp(_, l, r) => self.expr_tree(*l) + self.expr_tree(*r),
            ExprKind::Block(b) => self.block_tree(*b),
            ExprKind::Call(l, r) => self.expr_tree(*l) + self.expr_tree(*r),
            ExprKind::If(c, b, els) => self.expr_tree(*c) + self.block_tree(*b) + match els {
                Some(x) => self.expr_tree(*x),
                None => Seq::empty(),
            },
            ExprKind::Lit(_) => Seq::empty(),
            ExprKind::Paren(x) => self.expr_tree(*x),
            ExprKind::Path(_) => Seq::empty(),
            ExprKind::Tuple(es) => self.exprs_tree(es@),
            ExprKind::UnOp(_, x) => self.expr_tree(*x),
            ExprKind::While(c, b) => self.expr_tree(*c) + self.block_tree(*b),
        }
    }

    pub open spec fn exprs_tree(self, es: Seq<Expr>) -> Seq<LintView>
        decreases es,
    {
        if es.len() == 0 {
            Seq::empty()
        } else {
            self.exprs_tree(es.subrange(0, es.len() - 1)) + self.expr_tree(es[es.len() - 1])
        }
    }

    /// The diagnostics of a pre-order walk of `s`.
    pub open spec fn stmt_tree(self, s: Stmt) -> Seq<LintView>
        decreases s,
    {
        self.stmt_hook(s) + match s.kind {
            StmtKind::Empty => Seq::empty(),
            StmtKind::Expr(e) => self.expr_tree(*e),
            StmtKind::Item(it) => self.item_tree(*it),
            StmtKind::Local(_, _, e) => self.expr_tree(*e),
            StmtKind::Semi(e) => self.expr_tree(*e),
        }
    }

    pub open spec fn stmts_tree(self, ss: Seq<Stmt>) -> Seq<LintView>
        decreases ss,
    {
        if ss.len() == 0 {
            Seq::empty()
        } else {
            self.stmts_tree(ss.subrange(0, ss.len() - 1)) + self.stmt_tree(ss[ss.len() - 1])
        }
    }

    /// The diagnostics of a pre-order walk of `b`.
    pub open spec fn block_tree(self, b: Block) -> Seq<LintView>
        decreases b,
    {
        self.block_hook(b) + self.stmts_tree(b.stmts@)
    }

    /// The diagnostics of a pre-order walk of `it`.
    pub open spec fn item_tree(self, it: Item) -> Seq<LintView>
        decreases it,
    {
        self.item_hook(it) + match it.kind {
            ItemKind::Callable(_, b) => self.block_tree(*b),
            ItemKind::Namespace(_, items) => self.items_tree(items@),
            _ => Seq::empty(),
        }
    }

    pub open spec fn items_tree(self, its: Seq<Item>) -> Seq<LintView>
        decreases its,
    {
        if its.len() == 0 {
            Seq::empty()
        } else {
            self.items_tree(its.subrange(0, its.len() - 1)) + self.item_tree(its[its.len() - 1])
        }
    }

    /// The diagnostics of a pre-order walk of every item of `p`, in order.
    pub open spec fn package_tree(self, p: Package) -> Seq<LintView> {
        self.items_tree(p.items@)
    }
}

/// The checks at the levels that `config` gives them.
pub open spec fn configured_lints(config: Seq<(AstLint, LintLevel)>) -> CombinedAstLints {
    CombinedAstLints {
        division_by_zero: DivisionByZero { level: configured_level(config, AstLint::DivisionByZero) },
        needless_parens: NeedlessParens { level: configured_level(config, AstLint::NeedlessParens) },
        redundant_semicolons: RedundantSemicolons {
            level: configured_level(config, AstLint::RedundantSemicolons),
        },
        deprecated_newtype: DeprecatedNewtype { level: configured_level(config, AstLint::DeprecatedNewtype) },
    }
}

/// Lints `package` with every rule at its default level unless `config`
/// overrides it; rules at `Allow` do not run.
pub fn run_ast_lints(package: &Package, config: &Vec<(AstLint, LintLevel)>) -> (r: Vec<Lint>)
    requires
        wf_package(*package),
    ensures
        lints_view(r@) == configured_lints(config@).package_tree(*package),
{
    let checks = CombinedAstLints::from_config(config);
    assert(checks == configured_lints(config@));
    checks.run(package)
}

impl AstLintPass for CombinedAstLints {
    open spec fn expr_lints(&self, e: Expr) -> Seq<LintView> {
        self.expr_hook(e)
    }

    open spec fn stmt_lints(&self, s: Stmt) -> Seq<LintView> {
        self.stmt_hook(s)
    }

    open spec fn block_lints(&self, b: Block) -> Seq<LintView> {
        self.block_hook(b)
    }

    open spec fn item_lints(&self, it: Item) -> Seq<LintView> {
        self.item_hook(it)
    }

    fn check_expr(&self, expr: &Expr, buffer: &mut Vec<Lint>) {
        let ghost start = lints_view(buffer@);
        if self.division_by_zero.level != LintLevel::Allow {
            self.division_by_zero.check_expr(expr, buffer);
        }
        if self.needless_parens.level != LintLevel::Allow {
            self.needless_parens.check_expr(expr, buffer);
        }
        assert(lints_view(buffer@) =~= start + self.expr_hook(*expr));
    }

    fn check_stmt(&self, stmt: &Stmt, buffer: &mut Vec<Lint>) {
        if self.needless_parens.level != LintLevel::Allow {
            self.needless_parens.check_stmt(stmt, buffer);
        } else {
            assert(lints_view(buffer@) =~= lints_view(buffer@) + self.stmt_hook(*stmt));
        }
    }

    fn check_block(&self, block: &Block, buffer: &mut Vec<Lint>) {
        if self.redundant_semicolons.level != LintLevel::Allow {
            self.redundant_semicolons.check_block(block, buffer);
        } else {
            assert(lints_view(buffer@) =~= lints_view(buffer@) + self.block_hook(*block));
        }
    }

    fn check_item(&self, item: &Item, buffer: &mut Vec<Lint>) {
        if self.deprecated_newtype.level != LintLevel::Allow {
            self.deprecated_newtype.check_item(item, buffer);
        } else {
            assert(lints_view(buffer@) =~= lints_view(buffer@) + self.item_hook(*item));
        }
    }
}

} // verus!

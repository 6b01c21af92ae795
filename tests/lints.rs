use qsc_linter::ast::{
    BinOp, Block, Expr, ExprKind, FieldDef, Item, ItemKind, Lit, Mutability, Package, Pat, Stmt,
    StmtKind,
};
use qsc_linter::lint::{AstLint, Lint, LintLevel};
use qsc_linter::lints::{precedence, AstLintPass, DivisionByZero, NeedlessParens, RedundantSemicolons};
use qsc_linter::pass::{run_ast_lints, CombinedAstLints};
use qsc_linter::span::Span;

fn sp(lo: u32, hi: u32) -> Span {
    Span { lo, hi }
}

fn expr(lo: u32, hi: u32, kind: ExprKind) -> Expr {
    Expr { span: sp(lo, hi), kind }
}

fn int_lit(lo: u32, hi: u32, v: i64) -> Expr {
    expr(lo, hi, ExprKind::Lit(Lit::Int(v)))
}

fn path(lo: u32, hi: u32, name: &str) -> Expr {
    expr(lo, hi, ExprKind::Path(name.to_string()))
}

fn bin(lo: u32, hi: u32, op: BinOp, l: Expr, r: Expr) -> Expr {
    expr(lo, hi, ExprKind::BinOp(op, Box::new(l), Box::new(r)))
}

fn paren(lo: u32, hi: u32, inner: Expr) -> Expr {
    expr(lo, hi, ExprKind::Paren(Box::new(inner)))
}

fn stmt(lo: u32, hi: u32, kind: StmtKind) -> Stmt {
    Stmt { span: sp(lo, hi), kind }
}

fn all_enabled() -> CombinedAstLints {
    CombinedAstLints::new(LintLevel::Error, LintLevel::Warn, LintLevel::Warn, LintLevel::Warn)
}

fn lint_expr(checks: &CombinedAstLints, e: &Expr) -> Vec<Lint> {
    let mut buffer = Vec::new();
    checks.visit_expr(e, &mut buffer);
    buffer
}

fn lint_block(checks: &CombinedAstLints, b: &Block) -> Vec<Lint> {
    let mut buffer = Vec::new();
    checks.visit_block(b, &mut buffer);
    buffer
}

/// `{;;;x();}` with the block starting at 0.
fn semicolons_then_call() -> Block {
    let call = expr(
        4,
        7,
        ExprKind::Call(Box::new(path(4, 5, "x")), Box::new(expr(5, 7, ExprKind::Tuple(vec![])))),
    );
    Block {
        span: sp(0, 9),
        stmts: vec![
            stmt(1, 2, StmtKind::Empty),
            stmt(2, 3, StmtKind::Empty),
            stmt(3, 4, StmtKind::Empty),
            stmt(4, 8, StmtKind::Semi(Box::new(call))),
        ],
    }
}

fn newtype_item(lo: u32, hi: u32) -> Item {
    Item { span: sp(lo, hi), kind: ItemKind::Ty("Foo".to_string(), "Int".to_string()) }
}

#[test]
fn division_by_literal_zero_is_reported() {
    // 10 / 0
    let e = bin(0, 6, BinOp::Div, int_lit(0, 2, 10), int_lit(5, 6, 0));
    let lints = lint_expr(&all_enabled(), &e);
    assert_eq!(lints.len(), 1);
    assert_eq!(lints[0].kind, AstLint::DivisionByZero);
    assert_eq!(lints[0].span, sp(0, 6));
    assert_eq!(lints[0].level, LintLevel::Error);
    assert_eq!(lints[0].message, "attempt to divide by zero");
    assert_eq!(lints[0].help, "division by zero will fail at runtime");
    assert!(lints[0].code_action_edits.is_empty());
}

#[test]
fn division_by_parenthesized_or_nonzero_is_not_reported() {
    let checks = CombinedAstLints::new(LintLevel::Error, LintLevel::Allow, LintLevel::Allow, LintLevel::Allow);
    // 10 / (0)
    let e = bin(0, 8, BinOp::Div, int_lit(0, 2, 10), paren(5, 8, int_lit(6, 7, 0)));
    assert!(lint_expr(&checks, &e).is_empty());
    // 10 / 1
    let e = bin(0, 6, BinOp::Div, int_lit(0, 2, 10), int_lit(5, 6, 1));
    assert!(lint_expr(&checks, &e).is_empty());
    // 10 * 0
    let e = bin(0, 6, BinOp::Mul, int_lit(0, 2, 10), int_lit(5, 6, 0));
    assert!(lint_expr(&checks, &e).is_empty());
}

#[test]
fn needless_parens_around_tighter_operand() {
    // a + (b * c)
    let inner = bin(5, 10, BinOp::Mul, path(5, 6, "b"), path(9, 10, "c"));
    let e = bin(0, 11, BinOp::Add, path(0, 1, "a"), paren(4, 11, inner));
    let lints = lint_expr(&all_enabled(), &e);
    assert_eq!(lints.len(), 1);
    assert_eq!(lints[0].kind, AstLint::NeedlessParens);
    assert_eq!(lints[0].span, sp(4, 11));
    assert_eq!(lints[0].message, "unnecessary parentheses");
    assert_eq!(lints[0].help, "remove the extra parentheses for clarity");
    assert_eq!(
        lints[0].code_action_edits,
        vec![(String::new(), sp(4, 5)), (String::new(), sp(10, 11))]
    );
}

#[test]
fn parens_around_equal_precedence_are_kept() {
    // a + (b + c)
    let inner = bin(5, 10, BinOp::Add, path(5, 6, "b"), path(9, 10, "c"));
    let e = bin(0, 11, BinOp::Add, path(0, 1, "a"), paren(4, 11, inner));
    assert!(lint_expr(&all_enabled(), &e).is_empty());
}

#[test]
fn needless_parens_on_assignment_and_binding() {
    // x = (1 + 2)
    let rhs = paren(4, 11, bin(5, 10, BinOp::Add, int_lit(5, 6, 1), int_lit(9, 10, 2)));
    let e = expr(0, 11, ExprKind::Assign(Box::new(path(0, 1, "x")), Box::new(rhs)));
    let lints = lint_expr(&all_enabled(), &e);
    assert_eq!(lints.len(), 1);
    assert_eq!(lints[0].span, sp(4, 11));
    // let y = (a);
    let pat = Pat { span: sp(4, 5), name: "y".to_string() };
    let init = paren(8, 11, path(9, 10, "a"));
    let s = stmt(0, 12, StmtKind::Local(Mutability::Immutable, Box::new(pat), Box::new(init)));
    let b = Block { span: sp(0, 14), stmts: vec![s] };
    let lints = lint_block(&all_enabled(), &b);
    assert_eq!(lints.len(), 1);
    assert_eq!(lints[0].kind, AstLint::NeedlessParens);
    assert_eq!(lints[0].span, sp(8, 11));
    assert_eq!(
        lints[0].code_action_edits,
        vec![(String::new(), sp(8, 9)), (String::new(), sp(10, 11))]
    );
}

#[test]
fn needless_parens_edits_remove_only_the_delimiters() {
    let edits = NeedlessParens::get_code_action_edits(sp(3, 9));
    assert_eq!(edits, vec![(String::new(), sp(3, 4)), (String::new(), sp(8, 9))]);
}

#[test]
fn precedence_table() {
    assert_eq!(precedence(&int_lit(0, 1, 1)), 15);
    assert_eq!(precedence(&paren(0, 3, int_lit(1, 2, 1))), 14);
    let un = expr(0, 2, ExprKind::UnOp(qsc_linter::ast::UnOp::Neg, Box::new(int_lit(1, 2, 1))));
    assert_eq!(precedence(&un), 13);
    let cases = [
        (BinOp::Exp, 12),
        (BinOp::Div, 10),
        (BinOp::Mod, 10),
        (BinOp::Mul, 10),
        (BinOp::Add, 9),
        (BinOp::Sub, 9),
        (BinOp::Shl, 8),
        (BinOp::Shr, 8),
        (BinOp::AndB, 7),
        (BinOp::XorB, 6),
        (BinOp::OrB, 5),
        (BinOp::Gt, 4),
        (BinOp::Gte, 4),
        (BinOp::Lt, 4),
        (BinOp::Lte, 4),
        (BinOp::Eq, 4),
        (BinOp::Neq, 4),
        (BinOp::AndL, 3),
        (BinOp::OrL, 2),
    ];
    for (op, p) in cases {
        assert_eq!(precedence(&bin(0, 3, op, int_lit(0, 1, 1), int_lit(2, 3, 1))), p);
    }
    let assign = expr(0, 5, ExprKind::Assign(Box::new(path(0, 1, "x")), Box::new(int_lit(4, 5, 1))));
    assert_eq!(precedence(&assign), 1);
    let assign_op =
        expr(0, 6, ExprKind::AssignOp(BinOp::Add, Box::new(path(0, 1, "x")), Box::new(int_lit(5, 6, 1))));
    assert_eq!(precedence(&assign_op), 1);
    assert_eq!(precedence(&path(0, 1, "x")), 0);
}

#[test]
fn redundant_semicolons_run_is_one_lint() {
    let lints = lint_block(&all_enabled(), &semicolons_then_call());
    assert_eq!(lints.len(), 1);
    assert_eq!(lints[0].kind, AstLint::RedundantSemicolons);
    assert_eq!(lints[0].level, LintLevel::Warn);
    assert_eq!(lints[0].span, sp(1, 4));
    assert_eq!(lints[0].message, "redundant semicolons");
    assert_eq!(lints[0].help, "remove the redundant semicolons");
    assert_eq!(lints[0].code_action_edits, vec![(String::new(), sp(1, 4))]);
}

#[test]
fn redundant_semicolons_counts_each_run() {
    // {;x;;;} : a lone empty statement, then a run of two at the end
    let b = Block {
        span: sp(0, 7),
        stmts: vec![
            stmt(1, 2, StmtKind::Empty),
            stmt(2, 4, StmtKind::Semi(Box::new(path(2, 3, "x")))),
            stmt(4, 5, StmtKind::Empty),
            stmt(5, 6, StmtKind::Empty),
        ],
    };
    let lints = lint_block(&all_enabled(), &b);
    assert_eq!(lints.len(), 2);
    assert_eq!(lints[0].span, sp(1, 2));
    assert_eq!(lints[1].span, sp(4, 6));
    assert_eq!(lints[1].code_action_edits, vec![(String::new(), sp(4, 6))]);
    let empty = Block { span: sp(0, 2), stmts: vec![] };
    assert!(lint_block(&all_enabled(), &empty).is_empty());
}

#[test]
fn newtype_is_reported_and_struct_is_not() {
    let checks = all_enabled();
    let mut buffer = Vec::new();
    checks.visit_item(&newtype_item(0, 18), &mut buffer);
    assert_eq!(buffer.len(), 1);
    assert_eq!(buffer[0].kind, AstLint::DeprecatedNewtype);
    assert_eq!(buffer[0].span, sp(0, 18));
    assert_eq!(buffer[0].message, "deprecated `newtype` declarations");
    assert_eq!(buffer[0].help, "`newtype` declarations are deprecated, use `struct` instead");
    assert!(buffer[0].code_action_edits.is_empty());
    let st = Item {
        span: sp(0, 21),
        kind: ItemKind::Struct(
            "Foo".to_string(),
            vec![FieldDef { span: sp(13, 19), name: "x".to_string(), ty: "Int".to_string() }],
        ),
    };
    let mut buffer = Vec::new();
    checks.visit_item(&st, &mut buffer);
    assert!(buffer.is_empty());
}

#[test]
fn nested_newtype_is_reported_once() {
    // namespace N { operation Main() : Unit { newtype Foo = Int; } newtype Bar = Int; }
    let body = Block {
        span: sp(20, 50),
        stmts: vec![stmt(22, 40, StmtKind::Item(Box::new(newtype_item(22, 40))))],
    };
    let callable = Item { span: sp(14, 50), kind: ItemKind::Callable("Main".to_string(), Box::new(body)) };
    let ns = Item {
        span: sp(0, 72),
        kind: ItemKind::Namespace("N".to_string(), vec![callable, newtype_item(51, 70)]),
    };
    let lints = all_enabled().run(&Package { items: vec![ns] });
    assert_eq!(lints.len(), 2);
    assert_eq!(lints[0].span, sp(22, 40));
    assert_eq!(lints[1].span, sp(51, 70));
    assert!(lints.iter().all(|l| l.kind == AstLint::DeprecatedNewtype));
}

#[test]
fn checks_at_one_node_follow_registration_order() {
    // (1) / 0 : division by zero first, then the needless parentheses
    let e = bin(0, 7, BinOp::Div, paren(0, 3, int_lit(1, 2, 1)), int_lit(6, 7, 0));
    let lints = lint_expr(&all_enabled(), &e);
    assert_eq!(lints.len(), 2);
    assert_eq!(lints[0].kind, AstLint::DivisionByZero);
    assert_eq!(lints[1].kind, AstLint::NeedlessParens);
    assert_eq!(lints[1].span, sp(0, 3));
}

#[test]
fn walk_is_pre_order() {
    // { 1 / 0; { ;; } }
    let inner = Block { span: sp(10, 16), stmts: vec![stmt(11, 12, StmtKind::Empty), stmt(12, 13, StmtKind::Empty)] };
    let b = Block {
        span: sp(0, 18),
        stmts: vec![
            stmt(2, 8, StmtKind::Semi(Box::new(bin(2, 7, BinOp::Div, int_lit(2, 3, 1), int_lit(6, 7, 0))))),
            stmt(10, 16, StmtKind::Expr(Box::new(expr(10, 16, ExprKind::Block(Box::new(inner)))))),
        ],
    };
    let lints = lint_block(&all_enabled(), &b);
    assert_eq!(lints.len(), 2);
    assert_eq!(lints[0].kind, AstLint::DivisionByZero);
    assert_eq!(lints[1].kind, AstLint::RedundantSemicolons);
    assert_eq!(lints[1].span, sp(11, 13));
}

#[test]
fn allowed_rules_do_not_run() {
    let defaults = CombinedAstLints::from_config(&vec![]);
    // needless parentheses and newtype are off by default
    let inner = bin(5, 10, BinOp::Mul, path(5, 6, "b"), path(9, 10, "c"));
    let e = bin(0, 11, BinOp::Add, path(0, 1, "a"), paren(4, 11, inner));
    assert!(lint_expr(&defaults, &e).is_empty());
    let mut buffer = Vec::new();
    defaults.visit_item(&newtype_item(0, 18), &mut buffer);
    assert!(buffer.is_empty());
    let off = CombinedAstLints::new(LintLevel::Allow, LintLevel::Allow, LintLevel::Allow, LintLevel::Allow);
    assert!(lint_block(&off, &semicolons_then_call()).is_empty());
    let e = bin(0, 6, BinOp::Div, int_lit(0, 2, 10), int_lit(5, 6, 0));
    assert!(lint_expr(&off, &e).is_empty());
}

#[test]
fn config_overrides_defaults_last_one_wins() {
    let defaults = CombinedAstLints::from_config(&vec![]);
    assert_eq!(defaults.division_by_zero.level, LintLevel::Error);
    assert_eq!(defaults.needless_parens.level, LintLevel::Allow);
    assert_eq!(defaults.redundant_semicolons.level, LintLevel::Warn);
    assert_eq!(defaults.deprecated_newtype.level, LintLevel::Allow);
    let config = vec![
        (AstLint::NeedlessParens, LintLevel::Error),
        (AstLint::DivisionByZero, LintLevel::Warn),
        (AstLint::NeedlessParens, LintLevel::Warn),
    ];
    let c = CombinedAstLints::from_config(&config);
    assert_eq!(c.division_by_zero.level, LintLevel::Warn);
    assert_eq!(c.needless_parens.level, LintLevel::Warn);
    assert_eq!(c.redundant_semicolons.level, LintLevel::Warn);
    assert_eq!(c.deprecated_newtype.level, LintLevel::Allow);
    let e = bin(0, 6, BinOp::Div, int_lit(0, 2, 10), int_lit(5, 6, 0));
    let lints = lint_expr(&c, &e);
    assert_eq!(lints.len(), 1);
    assert_eq!(lints[0].level, LintLevel::Warn);
}

#[test]
fn running_twice_gives_the_same_lints() {
    let body = semicolons_then_call();
    let callable = Item { span: sp(0, 9), kind: ItemKind::Callable("f".to_string(), Box::new(body)) };
    let p = Package { items: vec![callable, newtype_item(10, 28)] };
    let c = all_enabled();
    let first = c.run(&p);
    let second = c.run(&p);
    assert_eq!(first.len(), 2);
    assert_eq!(format!("{:?}", first), format!("{:?}", second));
}

#[test]
fn default_levels_and_texts() {
    assert_eq!(AstLint::DivisionByZero.default_level(), LintLevel::Error);
    assert_eq!(AstLint::NeedlessParens.default_level(), LintLevel::Allow);
    assert_eq!(AstLint::RedundantSemicolons.default_level(), LintLevel::Warn);
    assert_eq!(AstLint::DeprecatedNewtype.default_level(), LintLevel::Allow);
    assert_eq!(AstLint::NeedlessParens.message(), "unnecessary parentheses");
    assert_eq!(Span::new(3, 5), sp(3, 5));
}

#[test]
fn single_check_through_its_hooks() {
    let e = bin(0, 6, BinOp::Div, int_lit(0, 2, 7), int_lit(5, 6, 0));
    let check = DivisionByZero { level: LintLevel::Warn };
    let mut buffer = Vec::new();
    check.check_expr(&e, &mut buffer);
    check.check_block(&semicolons_then_call(), &mut buffer);
    assert_eq!(buffer.len(), 1);
    assert_eq!(buffer[0].level, LintLevel::Warn);
    let rs = RedundantSemicolons { level: LintLevel::Error };
    rs.check_expr(&e, &mut buffer);
    rs.check_block(&semicolons_then_call(), &mut buffer);
    assert_eq!(buffer.len(), 2);
    assert_eq!(buffer[1].kind, AstLint::RedundantSemicolons);
    assert_eq!(buffer[1].level, LintLevel::Error);
}

#[test]
fn run_with_configuration() {
    // operation f() : Unit { ;;;x(); } newtype Foo = Int;
    let callable = Item { span: sp(0, 9), kind: ItemKind::Callable("f".to_string(), Box::new(semicolons_then_call())) };
    let p = Package { items: vec![callable, newtype_item(10, 28)] };
    let lints = run_ast_lints(&p, &vec![]);
    assert_eq!(lints.len(), 1);
    assert_eq!(lints[0].kind, AstLint::RedundantSemicolons);
    let config = vec![
        (AstLint::DeprecatedNewtype, LintLevel::Error),
        (AstLint::RedundantSemicolons, LintLevel::Allow),
    ];
    let lints = run_ast_lints(&p, &config);
    assert_eq!(lints.len(), 1);
    assert_eq!(lints[0].kind, AstLint::DeprecatedNewtype);
    assert_eq!(lints[0].level, LintLevel::Error);
    assert_eq!(lints[0].span, sp(10, 28));
}

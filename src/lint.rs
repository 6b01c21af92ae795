use crate::span::Span;
use vstd::prelude::*;

verus! {

/// How severe a diagnostic is. A rule at `Allow` is never run.
#[derive(Clone, Copy, Debug, PartialEq, Eq, Structural)]
pub enum LintLevel {
    Allow,
    Warn,
    Error,
}

/// The rule that produced a diagnostic.
#[derive(Clone, Copy, Debug, PartialEq, Eq, Structural)]
pub enum AstLint {
    DivisionByZero,
    NeedlessParens,
    RedundantSemicolons,
    DeprecatedNewtype,
}

pub open spec fn message_text(kind: AstLint) -> Seq<char> {
    match kind {
        AstLint::DivisionByZero => "attempt to divide by zero"@,
        AstLint::NeedlessParens => "unnecessary parentheses"@,
        AstLint::RedundantSemicolons => "redundant semicolons"@,
        AstLint::DeprecatedNewtype => "deprecated `newtype` declarations"@,
    }
}

pub open spec fn help_text(kind: AstLint) -> Seq<char> {
    match kind {
        AstLint::DivisionByZero => "division by zero will fail at runtime"@,
        AstLint::NeedlessParens => "remove the extra parentheses for clarity"@,
        AstLint::RedundantSemicolons => "remove the redundant semicolons"@,
        AstLint::DeprecatedNewtype => "`newtype` declarations are deprecated, use `struct` instead"@,
    }
}

pub open spec fn default_level_of(kind: AstLint) -> LintLevel {
    match kind {
        AstLint::DivisionByZero => LintLevel::Error,
        AstLint::NeedlessParens => LintLevel::Allow,
        AstLint::RedundantSemicolons => LintLevel::Warn,
        AstLint::DeprecatedNewtype => LintLevel::Allow,
    }
}

impl AstLint {
    /// The text shown where the diagnostic is reported.
    pub fn message(&self) -> (r: &'static str)
        ensures
            r@ == message_text(*self),
    {
        match self {
            AstLint::DivisionByZero => "attempt to divide by zero",
            AstLint::NeedlessParens => "unnecessary parentheses",
            AstLint::RedundantSemicolons => "redundant semicolons",
            AstLint::DeprecatedNewtype => "deprecated `newtype` declarations",
        }
    }

    /// How to resolve the diagnostic.
    pub fn help(&self) -> (r: &'static str)
        ensures
            r@ == help_text(*self),
    {
        match self {
            AstLint::DivisionByZero => "division by zero will fail at runtime",
            AstLint::NeedlessParens => "remove the extra parentheses for clarity",
            AstLint::RedundantSemicolons => "remove the redundant semicolons",
            AstLint::DeprecatedNewtype => "`newtype` declarations are deprecated, use `struct` instead",
        }
    }

    /// The level a rule runs at unless configuration overrides it.
    pub fn default_level(&self) -> (r: LintLevel)
        ensures
            r == default_level_of(*self),
    {
        match self {
            AstLint::DivisionByZero => LintLevel::Error,
            AstLint::NeedlessParens => LintLevel::Allow,
            AstLint::RedundantSemicolons => LintLevel::Warn,
            AstLint::DeprecatedNewtype => LintLevel::Allow,
        }
    }
}

/// One diagnostic: where, how severe, which rule, and the text edits that fix it.
#[derive(Debug)]
pub struct Lint {
    pub span: Span,
    pub level: LintLevel,
    pub message: &'static str,
    pub help: &'static str,
    pub kind: AstLint,
    /// Replacement text and the span it replaces, applied in order.
    pub code_action_edits: Vec<(String, Span)>,
}

/// The mathematical content of a [`Lint`].
pub struct LintView {
    pub span: Span,
    pub level: LintLevel,
    pub message: Seq<char>,
    pub help: Seq<char>,
    pub kind: AstLint,
    pub edits: Seq<(Seq<char>, Span)>,
}

/// The diagnostic that rule `kind` at `level` reports over `span` with `edits`.
pub open spec fn lint_of(
    kind: AstLint,
    level: LintLevel,
    span: Span,
    edits: Seq<(Seq<char>, Span)>,
) -> LintView {
    LintView { span, level, message: message_text(kind), help: help_text(kind), kind, edits }
}

pub open spec fn edit_view(e: (String, Span)) -> (Seq<char>, Span) {
    (e.0@, e.1)
}

impl View for Lint {
    type V = LintView;

    open spec fn view(&self) -> LintView {
        LintView {
            span: self.span,
            level: self.level,
            message: self.message@,
            help: self.help@,
            kind: self.kind,
            edits: self.code_action_edits@.map_values(|e: (String, Span)| edit_view(e)),
        }
    }
}

/// The views of a sequence of diagnostics, in order.
pub open spec fn lints_view(s: Seq<Lint>) -> Seq<LintView> {
    s.map_values(|l: Lint| l@)
}

impl Lint {
    /// Builds the diagnostic of rule `kind` at `level` over `span`.
    pub fn new(kind: AstLint, level: LintLevel, span: Span, code_action_edits: Vec<(String, Span)>) -> (r: Lint)
        ensures
            r@ == lint_of(kind, level, span, code_action_edits@.map_values(|e: (String, Span)| edit_view(e))),
    {
        Lint { span, level, message: kind.message(), help: kind.help(), kind, code_action_edits }
    }
}

} // verus!

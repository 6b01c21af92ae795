//! A syntactic linter for a small expression-oriented language.
//!
//! The tree in [`ast`] is walked once, in pre-order, by [`pass::CombinedAstLints`];
//! at every node each enabled check in [`lints`] may append diagnostics
//! ([`lint::Lint`]) to one ordered buffer. [`laws`] states and proves what
//! holds of the diagnostics across checks and across the walk.

pub mod span;
pub mod lint;
pub mod ast;
pub mod lints;
pub mod pass;
pub mod laws;

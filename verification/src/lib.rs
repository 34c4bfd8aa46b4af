//! Switch-clause declaration checker.
//!
//! A `switch` body is a single lexical scope shared by all of its
//! `case`/`default` arms, so a `let`/`const`, class or function declaration
//! standing directly in an arm's statement list is visible in every arm
//! while only being initialized when its own arm runs. This library walks
//! one switch node and reports each such unguarded declaration; an explicit
//! `{ ... }` block shields its interior, and function-scoped `var`
//! declarations are always safe.

pub mod checker;
pub mod laws;
pub mod tree;

//! Counts how much of a Rust syntax tree lies inside `unsafe` scopes.
//!
//! Every function, module, call and macro invocation of a tree is one leaf,
//! counted as unsafe when it sits lexically inside an `unsafe` block or an
//! `unsafe fn`, and as safe otherwise. The result is a pair of counters.

pub mod classify;
pub mod error;
pub mod lex;
pub mod parse;
pub mod screen;
pub mod summary;
pub mod tree;

pub use crate::classify::{
    classify_tree, process_arguments, process_block, process_expression, process_item,
    process_stmt,
};
pub use crate::error::{Error, UnsupportedConstruct};
pub use crate::parse::{parse, process_string, summarize, REFUSAL};
pub use crate::lex::{lex, Lexeme};
pub use crate::screen::{accepts, characters, refuses, strip};
pub use crate::summary::SafenessSummary;
pub use crate::tree::{Declaration, DeclarationKind, Expression, ExpressionKind, Statement};

//! What can go wrong.

use vstd::prelude::*;
use crate::tree::{DeclarationKind, ExpressionKind};

verus! {

/// A construct for which classification has no rule.
#[derive(Debug, Clone, Copy, PartialEq, Eq, Structural)]
pub enum UnsupportedConstruct {
    Declaration(DeclarationKind),
    Expression(ExpressionKind),
}

/// Why a source text has no summary.
#[derive(Debug, PartialEq, Eq)]
pub enum Error {
    /// The text is not a Rust source file; the parser's message says why.
    ParseFailure(String),
    /// The text holds a construct without a rule; no part of it was counted.
    UnsupportedConstruct(UnsupportedConstruct),
}

/// The view of an [`Error`].
pub enum ErrorView {
    ParseFailure(Seq<char>),
    UnsupportedConstruct(UnsupportedConstruct),
}

impl View for Error {
    type V = ErrorView;

    open spec fn view(&self) -> ErrorView {
        match self {
            Error::ParseFailure(message) => ErrorView::ParseFailure(message@),
            Error::UnsupportedConstruct(construct) => ErrorView::UnsupportedConstruct(*construct),
        }
    }
}

} // verus!

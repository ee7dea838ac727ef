//! From source text to a summary.
//!
//! The text is parsed by `syn`. What `syn` hands back is converted, node by
//! node, into the tree of [`crate::tree`]: `parse_source` and the functions
//! named `lower_..` and `.._kind..` do that and nothing else. They are
//! believed, not proved; every other function of this crate is proved, and
//! none of them reads a value of `syn`.
//!
//! Only a text that [`crate::screen`] accepts is handed to the parser. Any
//! other is a parse failure without a call to the parser.

use vstd::prelude::*;
use crate::classify::{classify_declarations, classify_tree, saturated};
use crate::error::{Error, ErrorView, UnsupportedConstruct};
use crate::screen::{accepted, accepts};
use crate::summary::SafenessSummary;
use crate::tree::{
    Declaration, DeclarationKind, DeclarationView, Expression, ExpressionKind, Statement,
    declarations_view,
};

verus! {

/// `syn::Item`, opaque to the verifier.
#[verifier::external_type_specification]
#[verifier::external_body]
pub struct ExSynItem(syn::Item);

/// `syn::Stmt`, opaque to the verifier.
#[verifier::external_type_specification]
#[verifier::external_body]
pub struct ExSynStmt(syn::Stmt);

/// `syn::Expr`, opaque to the verifier.
#[verifier::external_type_specification]
#[verifier::external_body]
pub struct ExSynExpr(syn::Expr);

/// What `syn::parse_file` makes of a source text: the top-level declarations
/// of the file it parsed, or the message of the error it returned.
pub uninterp spec fn parsed_source(src: Seq<char>) -> Result<Seq<DeclarationView>, Seq<char>>;

/// Calls `syn::parse_file` and hands back the items of the file, each
/// converted by `lower_item`, or the text of the parser's error. Believed:
/// the result is the one that `parsed_source` names, so the same text always
/// gives the same tree or the same message. Nothing is claimed about which
/// texts parse.
///
/// `syn::parse_file` panics where a type starts with a `for<..>` binder and
/// goes on with `dyn` and a lifetime: it takes the first bound after `dyn`
/// for a trait. The `requires` leaves out every text whose tokens, as the
/// parser reads them, hold such a binder before `dyn` and an apostrophe.
#[verifier::external_body]
fn parse_source(src: &str) -> (r: Result<Vec<Declaration>, String>)
    requires
        accepted(src@),
    ensures
        match r {
            Ok(items) => parsed_source(src@) == Ok::<Seq<DeclarationView>, Seq<char>>(
                declarations_view(items@),
            ),
            Err(message) => parsed_source(src@) == Err::<Seq<DeclarationView>, Seq<char>>(
                message@,
            ),
        },
{
    match syn::parse_file(src) {
        Ok(file) => Ok(file.items.iter().map(lower_item).collect()),
        Err(error) => Err(error.to_string()),
    }
}

/// Converts a `syn::Item`: of `Item::Fn`, whether `unsafety` is there and the
/// statements of `block`; of `Item::Mod`, nothing; of any other variant, which
/// one it is.
#[verifier::external_body]
fn lower_item(item: &syn::Item) -> Declaration {
    match item {
        syn::Item::Fn(function) => Declaration::Function {
            is_unsafe: function.unsafety.is_some(),
            body: function.block.stmts.iter().map(lower_stmt).collect(),
        },
        syn::Item::Mod(_) => Declaration::Module,
        other => Declaration::Other(item_kind(other)),
    }
}

/// Converts a `syn::Stmt`, variant by variant: of `Stmt::Local`, the
/// expression of `init`; of the others, the item or expression they hold.
#[verifier::external_body]
fn lower_stmt(stmt: &syn::Stmt) -> Statement {
    match stmt {
        syn::Stmt::Local(local) => Statement::Local {
            init: local.init.as_ref().map(|init| lower_expr(&init.1)),
        },
        syn::Stmt::Item(item) => Statement::Declaration(lower_item(item)),
        syn::Stmt::Expr(expr) => Statement::Expression(lower_expr(expr)),
        syn::Stmt::Semi(expr, _) => Statement::Semi(lower_expr(expr)),
    }
}

/// Converts a `syn::Expr`: of `Expr::Call`, the expressions of `args`; of
/// `Expr::Unsafe`, the statements of `block`; of `Expr::Macro`, nothing; of
/// any other variant, which one it is.
#[verifier::external_body]
fn lower_expr(expr: &syn::Expr) -> Expression {
    match expr {
        syn::Expr::Call(call) => Expression::Call {
            args: call.args.iter().map(lower_expr).collect(),
        },
        syn::Expr::Unsafe(block) => Expression::Unsafe {
            body: block.block.stmts.iter().map(lower_stmt).collect(),
        },
        syn::Expr::Macro(_) => Expression::Macro,
        other => Expression::Other(expr_kind(other)),
    }
}

/// Tells the variants of `syn::Item` apart, from `ExternCrate` to
/// `TraitAlias`; the others are left to `item_kind_rest`.
#[verifier::external_body]
fn item_kind(item: &syn::Item) -> DeclarationKind {
    match item {
        syn::Item::ExternCrate(_) => DeclarationKind::ExternCrate,
        syn::Item::Use(_) => DeclarationKind::Use,
        syn::Item::Static(_) => DeclarationKind::Static,
        syn::Item::Const(_) => DeclarationKind::Const,
        syn::Item::ForeignMod(_) => DeclarationKind::ForeignMod,
        syn::Item::Type(_) => DeclarationKind::Type,
        syn::Item::Existential(_) => DeclarationKind::Existential,
        syn::Item::Struct(_) => DeclarationKind::Struct,
        syn::Item::Enum(_) => DeclarationKind::Enum,
        syn::Item::Union(_) => DeclarationKind::Union,
        syn::Item::Trait(_) => DeclarationKind::Trait,
        syn::Item::TraitAlias(_) => DeclarationKind::TraitAlias,
        other => item_kind_rest(other),
    }
}

/// Tells the remaining variants of `syn::Item` apart; `Verbatim` is the one
/// that is left.
#[verifier::external_body]
fn item_kind_rest(item: &syn::Item) -> DeclarationKind {
    match item {
        syn::Item::Impl(_) => DeclarationKind::Impl,
        syn::Item::Macro(_) => DeclarationKind::Macro,
        syn::Item::Macro2(_) => DeclarationKind::Macro2,
        _ => DeclarationKind::Verbatim,
    }
}

/// Tells the variants of `syn::Expr` apart, from `Box` to `If`; the others
/// are left to `expr_kind_more`.
#[verifier::external_body]
fn expr_kind(expr: &syn::Expr) -> ExpressionKind {
    match expr {
        syn::Expr::Box(_) => ExpressionKind::Box,
        syn::Expr::InPlace(_) => ExpressionKind::InPlace,
        syn::Expr::Array(_) => ExpressionKind::Array,
        syn::Expr::MethodCall(_) => ExpressionKind::MethodCall,
        syn::Expr::Tuple(_) => ExpressionKind::Tuple,
        syn::Expr::Binary(_) => ExpressionKind::Binary,
        syn::Expr::Unary(_) => ExpressionKind::Unary,
        syn::Expr::Lit(_) => ExpressionKind::Lit,
        syn::Expr::Cast(_) => ExpressionKind::Cast,
        syn::Expr::Type(_) => ExpressionKind::Type,
        syn::Expr::Let(_) => ExpressionKind::Let,
        syn::Expr::If(_) => ExpressionKind::If,
        other => expr_kind_more(other),
    }
}

/// Tells the variants of `syn::Expr` apart, from `While` to `Path`; the
/// others are left to `expr_kind_rest`.
#[verifier::external_body]
fn expr_kind_more(expr: &syn::Expr) -> ExpressionKind {
    match expr {
        syn::Expr::While(_) => ExpressionKind::While,
        syn::Expr::ForLoop(_) => ExpressionKind::ForLoop,
        syn::Expr::Loop(_) => ExpressionKind::Loop,
        syn::Expr::Match(_) => ExpressionKind::Match,
        syn::Expr::Closure(_) => ExpressionKind::Closure,
        syn::Expr::Block(_) => ExpressionKind::Block,
        syn::Expr::Assign(_) => ExpressionKind::Assign,
        syn::Expr::AssignOp(_) => ExpressionKind::AssignOp,
        syn::Expr::Field(_) => ExpressionKind::Field,
        syn::Expr::Index(_) => ExpressionKind::Index,
        syn::Expr::Range(_) => ExpressionKind::Range,
        syn::Expr::Path(_) => ExpressionKind::Path,
        other => expr_kind_rest(other),
    }
}

/// Tells the remaining variants of `syn::Expr` apart; `Verbatim` is the one
/// that is left.
#[verifier::external_body]
fn expr_kind_rest(expr: &syn::Expr) -> ExpressionKind {
    match expr {
        syn::Expr::Reference(_) => ExpressionKind::Reference,
        syn::Expr::Break(_) => ExpressionKind::Break,
        syn::Expr::Continue(_) => ExpressionKind::Continue,
        syn::Expr::Return(_) => ExpressionKind::Return,
        syn::Expr::Struct(_) => ExpressionKind::Struct,
        syn::Expr::Repeat(_) => ExpressionKind::Repeat,
        syn::Expr::Paren(_) => ExpressionKind::Paren,
        syn::Expr::Group(_) => ExpressionKind::Group,
        syn::Expr::Try(_) => ExpressionKind::Try,
        syn::Expr::Async(_) => ExpressionKind::Async,
        syn::Expr::TryBlock(_) => ExpressionKind::TryBlock,
        syn::Expr::Yield(_) => ExpressionKind::Yield,
        _ => ExpressionKind::Verbatim,
    }
}

/// The message of the parse failure for a text that is not handed to the
/// parser.
pub const REFUSAL: &'static str =
    "a type that starts with `for<..>` and goes on with `dyn` and a lifetime is not supported";

/// What parsing makes of a text: what the parser makes of it where it is
/// accepted, and the refusal where it is not.
pub open spec fn parse_outcome(src: Seq<char>) -> Result<Seq<DeclarationView>, Seq<char>> {
    if accepted(src) {
        parsed_source(src)
    } else {
        Err(REFUSAL@)
    }
}

/// What a parse result comes to: the parser's message as a parse failure,
/// or the outcome of classifying the declarations from the top, outside any
/// unsafe scope.
pub open spec fn summarized(parsed: Result<Seq<DeclarationView>, Seq<char>>) -> Result<
    SafenessSummary,
    ErrorView,
> {
    match parsed {
        Ok(items) => match saturated(classify_declarations(items, false)) {
            Ok(summary) => Ok(summary),
            Err(construct) => Err(ErrorView::UnsupportedConstruct(construct)),
        },
        Err(message) => Err(ErrorView::ParseFailure(message)),
    }
}

/// The view of a result of [`process_string`].
pub open spec fn result_view(r: Result<SafenessSummary, Error>) -> Result<
    SafenessSummary,
    ErrorView,
> {
    match r {
        Ok(summary) => Ok(summary),
        Err(error) => Err(error@),
    }
}

/// Parses a source text into the tree of its top-level declarations. A text
/// that is not accepted is a parse failure, and the parser is not called.
pub fn parse(src: &str) -> (r: Result<Vec<Declaration>, Error>)
    ensures
        match parse_outcome(src@) {
            Ok(items) => r matches Ok(tree) && declarations_view(tree@) == items,
            Err(message) => r matches Err(error) && error@ == ErrorView::ParseFailure(message),
        },
{
    if !accepts(src) {
        return Err(Error::ParseFailure(REFUSAL.to_owned()));
    }
    match parse_source(src) {
        Ok(tree) => Ok(tree),
        Err(message) => Err(Error::ParseFailure(message)),
    }
}

/// Turns what the parser returned into a summary or an error.
pub fn summarize(parsed: Result<Vec<Declaration>, String>) -> (r: Result<SafenessSummary, Error>)
    ensures
        result_view(r) == summarized(
            match parsed {
                Ok(items) => Ok(declarations_view(items@)),
                Err(message) => Err(message@),
            },
        ),
{
    match parsed {
        Ok(items) => match classify_tree(&items) {
            Ok(summary) => Ok(summary),
            Err(construct) => Err(Error::UnsupportedConstruct(construct)),
        },
        Err(message) => Err(Error::ParseFailure(message)),
    }
}

/// Parses a source text and classifies it. A text that is not accepted is a
/// parse failure, and the parser is not called.
pub fn process_string(src: &str) -> (r: Result<SafenessSummary, Error>)
    ensures
        result_view(r) == summarized(parse_outcome(src@)),
{
    if !accepts(src) {
        return Err(Error::ParseFailure(REFUSAL.to_owned()));
    }
    summarize(parse_source(src))
}

} // verus!

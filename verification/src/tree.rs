//! The syntax tree that classification reads, and its mathematical view.

use vstd::prelude::*;

verus! {

/// The kinds of declaration of which the tree keeps nothing but the kind.
#[derive(Debug, Clone, Copy, PartialEq, Eq, Structural)]
pub enum DeclarationKind {
    /// `extern crate name;`
    ExternCrate,
    /// `use path;`
    Use,
    /// `static NAME: T = value;`
    Static,
    /// `const NAME: T = value;`
    Const,
    /// `extern "C" { .. }`
    ForeignMod,
    /// `type Name = T;`
    Type,
    /// `existential type Name: Bound;`
    Existential,
    /// `struct Name { .. }`
    Struct,
    /// `enum Name { .. }`
    Enum,
    /// `union Name { .. }`
    Union,
    /// `trait Name { .. }`
    Trait,
    /// `trait Name = Bound;`
    TraitAlias,
    /// `impl Name { .. }`
    Impl,
    /// A macro invocation where a declaration may stand, `macro_rules!`
    /// definitions among them.
    Macro,
    /// `macro name() { .. }`
    Macro2,
    /// Tokens in the place of a declaration that the parser left as they
    /// are.
    Verbatim,
}

/// The kinds of expression of which the tree keeps nothing but the kind.
#[derive(Debug, Clone, Copy, PartialEq, Eq, Structural)]
pub enum ExpressionKind {
    /// `box value`
    Box,
    /// `place <- value`
    InPlace,
    /// `[a, b]`
    Array,
    /// `receiver.method(a, b)`
    MethodCall,
    /// `(a, b)`
    Tuple,
    /// `a + b` and the other binary operators
    Binary,
    /// `!a`, `-a`, `*a`
    Unary,
    /// `1`, `"text"` and the other literals
    Lit,
    /// `value as T`
    Cast,
    /// `value: T`
    Type,
    /// `let pattern = value` as a condition
    Let,
    /// `if condition { .. } else { .. }`
    If,
    /// `while condition { .. }`
    While,
    /// `for pattern in values { .. }`
    ForLoop,
    /// `loop { .. }`
    Loop,
    /// `match value { .. }`
    Match,
    /// `|a, b| value`
    Closure,
    /// `{ .. }`
    Block,
    /// `place = value`
    Assign,
    /// `place += value` and the other compound assignments
    AssignOp,
    /// `value.field`
    Field,
    /// `value[index]`
    Index,
    /// `from..to`
    Range,
    /// `name` or `path::to::name`
    Path,
    /// `&value`, `&mut value`
    Reference,
    /// `break`
    Break,
    /// `continue`
    Continue,
    /// `return value`
    Return,
    /// `Name { field: value }`
    Struct,
    /// `[value; count]`
    Repeat,
    /// `(value)`
    Paren,
    /// An expression inside invisible delimiters.
    Group,
    /// `value?`
    Try,
    /// `async { .. }`
    Async,
    /// `try { .. }`
    TryBlock,
    /// `yield value`
    Yield,
    /// Tokens in the place of an expression that the parser left as they
    /// are.
    Verbatim,
}

/// A declaration.
#[derive(Debug, PartialEq, Eq)]
pub enum Declaration {
    /// A function with its body; `is_unsafe` tells an `unsafe fn`.
    Function { is_unsafe: bool, body: Vec<Statement> },
    /// A module, whatever it holds.
    Module,
    /// Any other declaration.
    Other(DeclarationKind),
}

/// A statement of a block.
#[derive(Debug, PartialEq, Eq)]
pub enum Statement {
    /// A `let` binding with its initializer, if it has one.
    Local { init: Option<Expression> },
    /// A declaration inside a block.
    Declaration(Declaration),
    /// An expression without a trailing semicolon.
    Expression(Expression),
    /// An expression with a trailing semicolon.
    Semi(Expression),
}

/// An expression.
#[derive(Debug, PartialEq, Eq)]
pub enum Expression {
    /// A call with its arguments. The callee is not part of the tree.
    Call { args: Vec<Expression> },
    /// An `unsafe { .. }` block with its statements.
    Unsafe { body: Vec<Statement> },
    /// A macro invocation; its tokens are not part of the tree.
    Macro,
    /// Any other expression.
    Other(ExpressionKind),
}

/// The view of a [`Declaration`].
pub enum DeclarationView {
    Function { is_unsafe: bool, body: Seq<StatementView> },
    Module,
    Other(DeclarationKind),
}

/// The view of a [`Statement`].
pub enum StatementView {
    Local { init: Option<ExpressionView> },
    Declaration(DeclarationView),
    Expression(ExpressionView),
    Semi(ExpressionView),
}

/// The view of an [`Expression`].
pub enum ExpressionView {
    Call { args: Seq<ExpressionView> },
    Unsafe { body: Seq<StatementView> },
    Macro,
    Other(ExpressionKind),
}

/// The view of a declaration.
pub open spec fn declaration_view(item: Declaration) -> DeclarationView
    decreases item,
{
    match item {
        Declaration::Function { is_unsafe, body } => DeclarationView::Function {
            is_unsafe,
            body: statements_view(body@),
        },
        Declaration::Module => DeclarationView::Module,
        Declaration::Other(kind) => DeclarationView::Other(kind),
    }
}

/// The view of a statement.
pub open spec fn statement_view(stmt: Statement) -> StatementView
    decreases stmt,
{
    match stmt {
        Statement::Local { init } => StatementView::Local {
            init: match init {
                Some(e) => Some(expression_view(e)),
                None => None,
            },
        },
        Statement::Declaration(item) => StatementView::Declaration(declaration_view(item)),
        Statement::Expression(e) => StatementView::Expression(expression_view(e)),
        Statement::Semi(e) => StatementView::Semi(expression_view(e)),
    }
}

/// The view of an expression.
pub open spec fn expression_view(expr: Expression) -> ExpressionView
    decreases expr,
{
    match expr {
        Expression::Call { args } => ExpressionView::Call { args: expressions_view(args@) },
        Expression::Unsafe { body } => ExpressionView::Unsafe { body: statements_view(body@) },
        Expression::Macro => ExpressionView::Macro,
        Expression::Other(kind) => ExpressionView::Other(kind),
    }
}

/// The views of a sequence of declarations, in order.
pub open spec fn declarations_view(items: Seq<Declaration>) -> Seq<DeclarationView>
    decreases items,
{
    Seq::new(
        items.len(),
        |i: int|
            if 0 <= i < items.len() {
                declaration_view(items[i])
            } else {
                arbitrary()
            },
    )
}

/// The views of a sequence of statements, in order.
pub open spec fn statements_view(stmts: Seq<Statement>) -> Seq<StatementView>
    decreases stmts,
{
    Seq::new(
        stmts.len(),
        |i: int|
            if 0 <= i < stmts.len() {
                statement_view(stmts[i])
            } else {
                arbitrary()
            },
    )
}

/// The views of a sequence of expressions, in order.
pub open spec fn expressions_view(exprs: Seq<Expression>) -> Seq<ExpressionView>
    decreases exprs,
{
    Seq::new(
        exprs.len(),
        |i: int|
            if 0 <= i < exprs.len() {
                expression_view(exprs[i])
            } else {
                arbitrary()
            },
    )
}

impl View for Declaration {
    type V = DeclarationView;

    open spec fn view(&self) -> DeclarationView {
        declaration_view(*self)
    }
}

impl View for Statement {
    type V = StatementView;

    open spec fn view(&self) -> StatementView {
        statement_view(*self)
    }
}

impl View for Expression {
    type V = ExpressionView;

    open spec fn view(&self) -> ExpressionView {
        expression_view(*self)
    }
}

} // verus!

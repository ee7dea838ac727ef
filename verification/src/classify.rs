//! The walk over the tree: which leaves count as safe and which as unsafe.

use vstd::prelude::*;
use vstd::std_specs::ops::AddSpec;
use crate::error::UnsupportedConstruct;
use crate::summary::{SafenessSummary, Summary, lemma_saturated_combine};
use crate::tree::{
    Declaration, DeclarationView, Expression, ExpressionView, Statement, StatementView,
    declarations_view, expressions_view, statements_view,
};

verus! {

/// What classification makes of a tree: its summary, or the first construct
/// in source order for which there is no rule.
pub type Outcome = Result<Summary, UnsupportedConstruct>;

/// Two outcomes in source order: the sum of their summaries, or the first
/// failure.
pub open spec fn join(first: Outcome, second: Outcome) -> Outcome {
    match first {
        Ok(a) => match second {
            Ok(b) => Ok(a.combine(b)),
            Err(construct) => Err(construct),
        },
        Err(construct) => Err(construct),
    }
}

/// All outcomes of a sequence joined in order, starting from the empty
/// summary.
pub open spec fn join_all(outcomes: Seq<Outcome>) -> Outcome
    decreases outcomes.len(),
{
    if outcomes.len() == 0 {
        Ok(Summary::zero())
    } else {
        join(join_all(outcomes.drop_last()), outcomes.last())
    }
}

/// The outcome of a declaration met where `ambient` tells whether the
/// surroundings are unsafe.
///
/// A function is one leaf, unsafe if the surroundings are or if it is an
/// `unsafe fn`, and its body is classified under that same flag. A module is
/// one leaf under the flag of its surroundings; what it holds is not counted.
/// No other declaration has a rule.
pub open spec fn classify_declaration(item: DeclarationView, ambient: bool) -> Outcome
    decreases item, 0int,
{
    match item {
        DeclarationView::Function { is_unsafe, body } => join(
            Ok(Summary::leaf(ambient || is_unsafe)),
            classify_statements(body, ambient || is_unsafe),
        ),
        DeclarationView::Module => Ok(Summary::leaf(ambient)),
        DeclarationView::Other(kind) => Err(UnsupportedConstruct::Declaration(kind)),
    }
}

/// The outcome of a statement. A statement is no leaf itself: it counts for
/// what the declaration or expression in it counts. A binding counts for its
/// initializer, and for nothing where it has none.
pub open spec fn classify_statement(stmt: StatementView, ambient: bool) -> Outcome
    decreases stmt, 0int,
{
    match stmt {
        StatementView::Local { init } => match init {
            Some(expr) => classify_expression(expr, ambient),
            None => Ok(Summary::zero()),
        },
        StatementView::Declaration(item) => classify_declaration(item, ambient),
        StatementView::Expression(expr) => classify_expression(expr, ambient),
        StatementView::Semi(expr) => classify_expression(expr, ambient),
    }
}

/// The outcome of an expression.
///
/// A call is one leaf under the flag of its surroundings, and so is each of
/// its arguments classified. An `unsafe` block is no leaf: its statements are
/// classified as unsafe, whatever the surroundings. A macro invocation is one
/// leaf, and what it holds is not counted. No other expression has a rule.
pub open spec fn classify_expression(expr: ExpressionView, ambient: bool) -> Outcome
    decreases expr, 0int,
{
    match expr {
        ExpressionView::Call { args } => join(
            Ok(Summary::leaf(ambient)),
            classify_expressions(args, ambient),
        ),
        ExpressionView::Unsafe { body } => classify_statements(body, true),
        ExpressionView::Macro => Ok(Summary::leaf(ambient)),
        ExpressionView::Other(kind) => Err(UnsupportedConstruct::Expression(kind)),
    }
}

/// The outcome of each declaration of a sequence.
pub open spec fn declaration_outcomes(items: Seq<DeclarationView>, ambient: bool) -> Seq<Outcome>
    decreases items, 0int,
{
    Seq::new(
        items.len(),
        |i: int|
            if 0 <= i < items.len() {
                classify_declaration(items[i], ambient)
            } else {
                arbitrary()
            },
    )
}

/// The outcome of each statement of a sequence.
pub open spec fn statement_outcomes(stmts: Seq<StatementView>, ambient: bool) -> Seq<Outcome>
    decreases stmts, 0int,
{
    Seq::new(
        stmts.len(),
        |i: int|
            if 0 <= i < stmts.len() {
                classify_statement(stmts[i], ambient)
            } else {
                arbitrary()
            },
    )
}

/// The outcome of each expression of a sequence.
pub open spec fn expression_outcomes(exprs: Seq<ExpressionView>, ambient: bool) -> Seq<Outcome>
    decreases exprs, 0int,
{
    Seq::new(
        exprs.len(),
        |i: int|
            if 0 <= i < exprs.len() {
                classify_expression(exprs[i], ambient)
            } else {
                arbitrary()
            },
    )
}

/// The outcome of a sequence of declarations: those of its members, joined
/// in order.
pub open spec fn classify_declarations(items: Seq<DeclarationView>, ambient: bool) -> Outcome
    decreases items, 1int,
{
    join_all(declaration_outcomes(items, ambient))
}

/// The outcome of a sequence of statements: those of its members, joined in
/// order.
pub open spec fn classify_statements(stmts: Seq<StatementView>, ambient: bool) -> Outcome
    decreases stmts, 1int,
{
    join_all(statement_outcomes(stmts, ambient))
}

/// The outcome of a sequence of expressions: those of its members, joined in
/// order.
pub open spec fn classify_expressions(exprs: Seq<ExpressionView>, ambient: bool) -> Outcome
    decreases exprs, 1int,
{
    join_all(expression_outcomes(exprs, ambient))
}

/// The executable result that stands for an outcome: the summary with its
/// counters saturated, or the same failure.
pub open spec fn saturated(outcome: Outcome) -> Result<SafenessSummary, UnsupportedConstruct> {
    match outcome {
        Ok(summary) => Ok(summary.saturated()),
        Err(construct) => Err(construct),
    }
}

/// Joining the first `n + 1` outcomes is joining the first `n` and then the
/// next one.
pub proof fn lemma_join_all_step(outcomes: Seq<Outcome>, n: int)
    requires
        0 <= n < outcomes.len(),
    ensures
        join_all(outcomes.take(n + 1)) == join(join_all(outcomes.take(n)), outcomes[n]),
{
    assert(outcomes.take(n + 1).drop_last() == outcomes.take(n));
}

/// A failure among the first `n` outcomes is the failure of the whole
/// sequence.
pub proof fn lemma_join_all_failure(outcomes: Seq<Outcome>, n: int)
    requires
        0 <= n <= outcomes.len(),
        join_all(outcomes.take(n)) is Err,
    ensures
        join_all(outcomes) == join_all(outcomes.take(n)),
    decreases outcomes.len() - n,
{
    if n < outcomes.len() {
        lemma_join_all_step(outcomes, n);
        lemma_join_all_failure(outcomes, n + 1);
    } else {
        assert(outcomes.take(n) == outcomes);
    }
}

/// Classifies a declaration met where `already_unsafe` tells whether the
/// surroundings are unsafe.
pub fn process_item(item: &Declaration, already_unsafe: bool) -> (r: Result<
    SafenessSummary,
    UnsupportedConstruct,
>)
    ensures
        r == saturated(classify_declaration(item@, already_unsafe)),
    decreases item,
{
    match item {
        Declaration::Function { is_unsafe, body } => {
            let unsafe_here = already_unsafe || *is_unsafe;
            let own = SafenessSummary::new_leaf(unsafe_here);
            match process_block(body, unsafe_here) {
                Ok(inner) => {
                    proof {
                        lemma_saturated_combine(
                            Summary::leaf(unsafe_here),
                            classify_statements(statements_view(body@), unsafe_here)->Ok_0,
                        );
                    }
                    Ok(own + inner)
                },
                Err(construct) => Err(construct),
            }
        },
        Declaration::Module => Ok(SafenessSummary::new_leaf(already_unsafe)),
        Declaration::Other(kind) => Err(UnsupportedConstruct::Declaration(*kind)),
    }
}

/// Classifies a statement.
pub fn process_stmt(stmt: &Statement, already_unsafe: bool) -> (r: Result<
    SafenessSummary,
    UnsupportedConstruct,
>)
    ensures
        r == saturated(classify_statement(stmt@, already_unsafe)),
    decreases stmt,
{
    match stmt {
        Statement::Local { init } => match init {
            Some(expr) => process_expression(expr, already_unsafe),
            None => Ok(SafenessSummary::default()),
        },
        Statement::Declaration(item) => process_item(item, already_unsafe),
        Statement::Expression(expr) => process_expression(expr, already_unsafe),
        Statement::Semi(expr) => process_expression(expr, already_unsafe),
    }
}

/// Classifies an expression.
pub fn process_expression(expr: &Expression, already_unsafe: bool) -> (r: Result<
    SafenessSummary,
    UnsupportedConstruct,
>)
    ensures
        r == saturated(classify_expression(expr@, already_unsafe)),
    decreases expr,
{
    match expr {
        Expression::Call { args } => {
            let own = SafenessSummary::new_leaf(already_unsafe);
            match process_arguments(args, already_unsafe) {
                Ok(inner) => {
                    proof {
                        lemma_saturated_combine(
                            Summary::leaf(already_unsafe),
                            classify_expressions(expressions_view(args@), already_unsafe)->Ok_0,
                        );
                    }
                    Ok(own + inner)
                },
                Err(construct) => Err(construct),
            }
        },
        Expression::Unsafe { body } => process_block(body, true),
        Expression::Macro => Ok(SafenessSummary::new_leaf(already_unsafe)),
        Expression::Other(kind) => Err(UnsupportedConstruct::Expression(*kind)),
    }
}

/// Classifies the statements of a block, in order.
pub fn process_block(stmts: &Vec<Statement>, already_unsafe: bool) -> (r: Result<
    SafenessSummary,
    UnsupportedConstruct,
>)
    ensures
        r == saturated(classify_statements(statements_view(stmts@), already_unsafe)),
    decreases stmts,
{
    let ghost outcomes = statement_outcomes(statements_view(stmts@), already_unsafe);
    let mut total = SafenessSummary::default();
    let mut i: usize = 0;
    while i < stmts.len()
        invariant
            0 <= i <= stmts.len(),
            outcomes == statement_outcomes(statements_view(stmts@), already_unsafe),
            saturated(join_all(outcomes.take(i as int))) == Ok::<
                SafenessSummary,
                UnsupportedConstruct,
            >(total),
        decreases stmts.len() - i,
    {
        proof {
            lemma_join_all_step(outcomes, i as int);
        }
        match process_stmt(&stmts[i], already_unsafe) {
            Ok(next) => {
                proof {
                    lemma_saturated_combine(
                        join_all(outcomes.take(i as int))->Ok_0,
                        outcomes[i as int]->Ok_0,
                    );
                }
                total = total + next;
            },
            Err(construct) => {
                proof {
                    lemma_join_all_failure(outcomes, i + 1);
                }
                return Err(construct);
            },
        }
        i += 1;
    }
    proof {
        assert(outcomes.take(i as int) == outcomes);
    }
    Ok(total)
}

/// Classifies the arguments of a call, in order.
pub fn process_arguments(args: &Vec<Expression>, already_unsafe: bool) -> (r: Result<
    SafenessSummary,
    UnsupportedConstruct,
>)
    ensures
        r == saturated(classify_expressions(expressions_view(args@), already_unsafe)),
    decreases args,
{
    let ghost outcomes = expression_outcomes(expressions_view(args@), already_unsafe);
    let mut total = SafenessSummary::default();
    let mut i: usize = 0;
    while i < args.len()
        invariant
            0 <= i <= args.len(),
            outcomes == expression_outcomes(expressions_view(args@), already_unsafe),
            saturated(join_all(outcomes.take(i as int))) == Ok::<
                SafenessSummary,
                UnsupportedConstruct,
            >(total),
        decreases args.len() - i,
    {
        proof {
            lemma_join_all_step(outcomes, i as int);
        }
        match process_expression(&args[i], already_unsafe) {
            Ok(next) => {
                proof {
                    lemma_saturated_combine(
                        join_all(outcomes.take(i as int))->Ok_0,
                        outcomes[i as int]->Ok_0,
                    );
                }
                total = total + next;
            },
            Err(construct) => {
                proof {
                    lemma_join_all_failure(outcomes, i + 1);
                }
                return Err(construct);
            },
        }
        i += 1;
    }
    proof {
        assert(outcomes.take(i as int) == outcomes);
    }
    Ok(total)
}

/// Classifies a whole tree: its top-level declarations, in order, none of
/// them in unsafe surroundings.
pub fn classify_tree(items: &Vec<Declaration>) -> (r: Result<SafenessSummary, UnsupportedConstruct>)
    ensures
        r == saturated(classify_declarations(declarations_view(items@), false)),
{
    let ghost outcomes = declaration_outcomes(declarations_view(items@), false);
    let mut total = SafenessSummary::default();
    let mut i: usize = 0;
    while i < items.len()
        invariant
            0 <= i <= items.len(),
            outcomes == declaration_outcomes(declarations_view(items@), false),
            saturated(join_all(outcomes.take(i as int))) == Ok::<
                SafenessSummary,
                UnsupportedConstruct,
            >(total),
        decreases items.len() - i,
    {
        proof {
            lemma_join_all_step(outcomes, i as int);
        }
        match process_item(&items[i], false) {
            Ok(next) => {
                proof {
                    lemma_saturated_combine(
                        join_all(outcomes.take(i as int))->Ok_0,
                        outcomes[i as int]->Ok_0,
                    );
                }
                total = total + next;
            },
            Err(construct) => {
                proof {
                    lemma_join_all_failure(outcomes, i + 1);
                }
                return Err(construct);
            },
        }
        i += 1;
    }
    proof {
        assert(outcomes.take(i as int) == outcomes);
    }
    Ok(total)
}

/// The empty outcome is the identity of `join`, and `join` is associative:
/// outcomes joined in order give the same whatever the grouping.
pub proof fn lemma_join_identity_associative(a: Outcome, b: Outcome, c: Outcome)
    ensures
        join(Ok(Summary::zero()), a) == a,
        join(a, Ok(Summary::zero())) == a,
        join(a, join(b, c)) == join(join(a, b), c),
{
}

/// Joining a sequence of outcomes is joining any two parts of it and then
/// the two results.
pub proof fn lemma_join_all_concat(first: Seq<Outcome>, second: Seq<Outcome>)
    ensures
        join_all(first + second) == join(join_all(first), join_all(second)),
    decreases second.len(),
{
    if second.len() == 0 {
        assert(first + second == first);
    } else {
        assert((first + second).drop_last() == first + second.drop_last());
        lemma_join_all_concat(first, second.drop_last());
    }
}

/// A sequence of statements cut in two counts as its two parts, one after
/// the other.
pub proof fn lemma_classify_statements_concat(
    first: Seq<StatementView>,
    second: Seq<StatementView>,
    ambient: bool,
)
    ensures
        classify_statements(first + second, ambient) == join(
            classify_statements(first, ambient),
            classify_statements(second, ambient),
        ),
{
    assert(statement_outcomes(first + second, ambient) == statement_outcomes(first, ambient)
        + statement_outcomes(second, ambient));
    lemma_join_all_concat(
        statement_outcomes(first, ambient),
        statement_outcomes(second, ambient),
    );
}

/// A single statement counts as a sequence for what it counts alone.
pub proof fn lemma_classify_statements_single(stmt: StatementView, ambient: bool)
    ensures
        classify_statements(seq![stmt], ambient) == classify_statement(stmt, ambient),
{
    let outcomes = statement_outcomes(seq![stmt], ambient);
    assert(outcomes.len() == 1);
    assert(outcomes.last() == classify_statement(seq![stmt][0], ambient));
    assert(join_all(outcomes.drop_last()) == Ok::<Summary, UnsupportedConstruct>(Summary::zero()));
    assert(join_all(outcomes) == join(join_all(outcomes.drop_last()), outcomes.last()));
}

/// An `unsafe` block around the given statements, as a statement.
pub open spec fn unsafe_block(body: Seq<StatementView>) -> StatementView {
    StatementView::Expression(ExpressionView::Unsafe { body })
}

/// The given statements, each in an `unsafe` block of its own.
pub open spec fn split_blocks(stmts: Seq<StatementView>) -> Seq<StatementView> {
    Seq::new(stmts.len(), |i: int| unsafe_block(seq![stmts[i]]))
}

/// Split-invariance: one `unsafe` block around a run of statements (calls,
/// or any others) counts exactly as the same statements each in an `unsafe`
/// block of its own. A failure is the same on both sides too.
pub proof fn lemma_split_invariance(stmts: Seq<StatementView>, ambient: bool)
    ensures
        classify_statements(split_blocks(stmts), ambient) == classify_statements(
            seq![unsafe_block(stmts)],
            ambient,
        ),
{
    let split = statement_outcomes(split_blocks(stmts), ambient);
    let whole = statement_outcomes(stmts, true);
    assert forall|i: int| 0 <= i < stmts.len() implies split[i] == whole[i] by {
        lemma_classify_statements_single(stmts[i], true);
    }
    assert(split == whole);
    lemma_classify_statements_single(unsafe_block(stmts), ambient);
}

/// Split-invariance of whole functions: two functions that differ only in
/// whether the statements of the body share one `unsafe` block or have one
/// each count the same.
pub proof fn lemma_split_invariance_function(
    stmts: Seq<StatementView>,
    is_unsafe: bool,
    ambient: bool,
)
    ensures
        classify_declaration(
            DeclarationView::Function { is_unsafe, body: split_blocks(stmts) },
            ambient,
        ) == classify_declaration(
            DeclarationView::Function { is_unsafe, body: seq![unsafe_block(stmts)] },
            ambient,
        ),
{
    lemma_split_invariance(stmts, ambient || is_unsafe);
}

/// An `unsafe` block cut in two counts as before: the statements of the
/// second block stay unsafe, and nothing is counted for the cut.
pub proof fn lemma_unsafe_block_cut(
    first: Seq<StatementView>,
    second: Seq<StatementView>,
    ambient: bool,
)
    ensures
        classify_statements(seq![unsafe_block(first), unsafe_block(second)], ambient)
            == classify_statements(seq![unsafe_block(first + second)], ambient),
{
    let two = seq![unsafe_block(first), unsafe_block(second)];
    assert(two == seq![unsafe_block(first)] + seq![unsafe_block(second)]);
    lemma_classify_statements_concat(
        seq![unsafe_block(first)],
        seq![unsafe_block(second)],
        ambient,
    );
    lemma_classify_statements_single(unsafe_block(first), ambient);
    lemma_classify_statements_single(unsafe_block(second), ambient);
    lemma_classify_statements_single(unsafe_block(first + second), ambient);
    lemma_classify_statements_concat(first, second, true);
}

/// Whether an outcome, if it is a summary, counts nothing as safe.
pub open spec fn nothing_safe(outcome: Outcome) -> bool {
    outcome matches Ok(summary) ==> summary.safe_count == 0
}

/// Outcomes that count nothing as safe join to one that counts nothing as
/// safe.
pub proof fn lemma_join_all_nothing_safe(outcomes: Seq<Outcome>)
    requires
        forall|i: int| 0 <= i < outcomes.len() ==> nothing_safe(#[trigger] outcomes[i]),
    ensures
        nothing_safe(join_all(outcomes)),
    decreases outcomes.len(),
{
    if outcomes.len() > 0 {
        lemma_join_all_nothing_safe(outcomes.drop_last());
    }
}

/// In unsafe surroundings a declaration counts nothing as safe.
pub proof fn lemma_unsafe_declaration(item: DeclarationView)
    ensures
        nothing_safe(classify_declaration(item, true)),
    decreases item,
{
    match item {
        DeclarationView::Function { is_unsafe, body } => {
            lemma_unsafe_statements(body);
        },
        _ => {},
    }
}

/// In unsafe surroundings a statement counts nothing as safe.
pub proof fn lemma_unsafe_statement(stmt: StatementView)
    ensures
        nothing_safe(classify_statement(stmt, true)),
    decreases stmt,
{
    match stmt {
        StatementView::Local { init } => match init {
            Some(expr) => {
                lemma_unsafe_expression(expr);
            },
            None => {},
        },
        StatementView::Declaration(item) => {
            lemma_unsafe_declaration(item);
        },
        StatementView::Expression(expr) => {
            lemma_unsafe_expression(expr);
        },
        StatementView::Semi(expr) => {
            lemma_unsafe_expression(expr);
        },
    }
}

/// In unsafe surroundings an expression counts nothing as safe.
pub proof fn lemma_unsafe_expression(expr: ExpressionView)
    ensures
        nothing_safe(classify_expression(expr, true)),
    decreases expr,
{
    match expr {
        ExpressionView::Call { args } => {
            lemma_unsafe_expressions(args);
        },
        ExpressionView::Unsafe { body } => {
            lemma_unsafe_statements(body);
        },
        _ => {},
    }
}

/// In unsafe surroundings a sequence of statements counts nothing as safe.
pub proof fn lemma_unsafe_statements(stmts: Seq<StatementView>)
    ensures
        nothing_safe(classify_statements(stmts, true)),
    decreases stmts,
{
    let outcomes = statement_outcomes(stmts, true);
    assert forall|i: int| 0 <= i < outcomes.len() implies nothing_safe(#[trigger] outcomes[i]) by {
        lemma_unsafe_statement(stmts[i]);
    }
    lemma_join_all_nothing_safe(outcomes);
}

/// In unsafe surroundings a sequence of expressions counts nothing as safe.
pub proof fn lemma_unsafe_expressions(exprs: Seq<ExpressionView>)
    ensures
        nothing_safe(classify_expressions(exprs, true)),
    decreases exprs,
{
    let outcomes = expression_outcomes(exprs, true);
    assert forall|i: int| 0 <= i < outcomes.len() implies nothing_safe(#[trigger] outcomes[i]) by {
        lemma_unsafe_expression(exprs[i]);
    }
    lemma_join_all_nothing_safe(outcomes);
}

/// How the flag travels. A function hands its own flag down to its body: in
/// an `unsafe fn` every leaf counts as unsafe, a call without any block
/// around it too. An `unsafe` block hands down `true` and changes nothing
/// around it: in a safe function under safe surroundings whose body is one
/// `unsafe` block, the function itself is the one safe leaf, and a
/// statement that follows a block is classified under the flag of the
/// function again.
pub proof fn lemma_ambient_propagation(
    body: Seq<StatementView>,
    next: StatementView,
    args: Seq<ExpressionView>,
    ambient: bool,
)
    ensures
        classify_declaration(DeclarationView::Function { is_unsafe: true, body }, ambient)
            == join(Ok(Summary::leaf(true)), classify_statements(body, true)),
        nothing_safe(
            classify_declaration(DeclarationView::Function { is_unsafe: true, body }, ambient),
        ),
        classify_expression(ExpressionView::Call { args }, ambient) == join(
            Ok(Summary::leaf(ambient)),
            classify_expressions(args, ambient),
        ),
        classify_expression(ExpressionView::Call { args }, true) matches Ok(summary)
            ==> summary.safe_count == 0 && summary.unsafe_count >= 1,
        classify_declaration(
            DeclarationView::Function { is_unsafe: false, body: seq![unsafe_block(body)] },
            false,
        ) == join(Ok(Summary::leaf(false)), classify_statements(body, true)),
        classify_declaration(
            DeclarationView::Function { is_unsafe: false, body: seq![unsafe_block(body)] },
            false,
        ) matches Ok(summary) ==> summary.safe_count == 1,
        classify_statements(seq![unsafe_block(body), next], ambient) == join(
            classify_statements(body, true),
            classify_statement(next, ambient),
        ),
{
    lemma_unsafe_statements(body);
    lemma_unsafe_expression(ExpressionView::Call { args });
    lemma_classify_statements_single(unsafe_block(body), false);
    lemma_classify_statements_single(unsafe_block(body), ambient);
    lemma_classify_statements_single(next, ambient);
    assert(seq![unsafe_block(body), next] == seq![unsafe_block(body)] + seq![next]);
    lemma_classify_statements_concat(seq![unsafe_block(body)], seq![next], ambient);
}

} // verus!

use safeness::{
    classify_tree, process_arguments, process_block, process_expression, process_item,
    process_stmt, Declaration, DeclarationKind, Expression, ExpressionKind, SafenessSummary,
    Statement, UnsupportedConstruct,
};

fn counts(safe: u64, unsafe_: u64) -> SafenessSummary {
    SafenessSummary { safe_expressions: safe, unsafe_expressions: unsafe_ }
}

fn call() -> Expression {
    Expression::Call { args: vec![] }
}

fn call_stmt() -> Statement {
    Statement::Semi(call())
}

fn unsafe_block(body: Vec<Statement>) -> Statement {
    Statement::Expression(Expression::Unsafe { body })
}

fn function(is_unsafe: bool, body: Vec<Statement>) -> Declaration {
    Declaration::Function { is_unsafe, body }
}

#[test]
fn macro_is_one_leaf_under_the_flag() {
    assert_eq!(process_expression(&Expression::Macro, false), Ok(counts(1, 0)));
    assert_eq!(process_expression(&Expression::Macro, true), Ok(counts(0, 1)));
}

#[test]
fn call_is_one_leaf_plus_its_arguments() {
    let nested = Expression::Call { args: vec![call(), Expression::Macro, call()] };
    assert_eq!(process_expression(&nested, false), Ok(counts(4, 0)));
    assert_eq!(process_expression(&nested, true), Ok(counts(0, 4)));
}

#[test]
fn unsafe_block_is_no_leaf_and_forces_the_flag() {
    let empty = Expression::Unsafe { body: vec![] };
    assert_eq!(process_expression(&empty, false), Ok(counts(0, 0)));
    let block = Expression::Unsafe { body: vec![call_stmt(), call_stmt()] };
    assert_eq!(process_expression(&block, false), Ok(counts(0, 2)));
    assert_eq!(process_expression(&block, true), Ok(counts(0, 2)));
}

#[test]
fn unsafe_argument_does_not_taint_the_call() {
    let expr = Expression::Call {
        args: vec![Expression::Unsafe { body: vec![call_stmt()] }, call()],
    };
    assert_eq!(process_expression(&expr, false), Ok(counts(2, 1)));
}

#[test]
fn other_expression_is_unsupported() {
    assert_eq!(
        process_expression(&Expression::Other(ExpressionKind::Match), false),
        Err(UnsupportedConstruct::Expression(ExpressionKind::Match))
    );
}

#[test]
fn statement_counts_for_what_it_holds() {
    assert_eq!(process_stmt(&Statement::Expression(call()), false), Ok(counts(1, 0)));
    assert_eq!(process_stmt(&Statement::Semi(call()), true), Ok(counts(0, 1)));
    assert_eq!(
        process_stmt(&Statement::Declaration(function(false, vec![call_stmt()])), false),
        Ok(counts(2, 0))
    );
}

#[test]
fn binding_counts_for_its_initializer() {
    assert_eq!(process_stmt(&Statement::Local { init: None }, false), Ok(counts(0, 0)));
    assert_eq!(process_stmt(&Statement::Local { init: None }, true), Ok(counts(0, 0)));
    assert_eq!(process_stmt(&Statement::Local { init: Some(call()) }, false), Ok(counts(1, 0)));
    let init = Expression::Unsafe { body: vec![Statement::Expression(call())] };
    assert_eq!(process_stmt(&Statement::Local { init: Some(init) }, false), Ok(counts(0, 1)));
    assert_eq!(
        process_stmt(
            &Statement::Local { init: Some(Expression::Other(ExpressionKind::Lit)) },
            false
        ),
        Err(UnsupportedConstruct::Expression(ExpressionKind::Lit))
    );
}

#[test]
fn function_is_one_leaf_plus_its_body() {
    assert_eq!(process_item(&function(false, vec![]), false), Ok(counts(1, 0)));
    assert_eq!(process_item(&function(true, vec![]), false), Ok(counts(0, 1)));
    assert_eq!(process_item(&function(false, vec![]), true), Ok(counts(0, 1)));
    assert_eq!(
        process_item(&function(false, vec![call_stmt(), Statement::Semi(Expression::Macro)]), false),
        Ok(counts(3, 0))
    );
}

#[test]
fn unsafe_function_makes_its_calls_unsafe() {
    assert_eq!(process_item(&function(true, vec![call_stmt()]), false), Ok(counts(0, 2)));
}

#[test]
fn unsafe_block_in_safe_function_leaves_the_function_safe() {
    let item = function(false, vec![unsafe_block(vec![call_stmt()])]);
    assert_eq!(process_item(&item, false), Ok(counts(1, 1)));
    let outer = function(false, vec![Statement::Declaration(item), call_stmt()]);
    assert_eq!(process_item(&outer, false), Ok(counts(3, 1)));
}

#[test]
fn statement_after_unsafe_block_is_under_the_old_flag() {
    let body = vec![unsafe_block(vec![call_stmt()]), call_stmt()];
    assert_eq!(process_block(&body, false), Ok(counts(1, 1)));
    assert_eq!(process_block(&body, true), Ok(counts(0, 2)));
}

#[test]
fn module_is_one_leaf_under_the_flag() {
    assert_eq!(process_item(&Declaration::Module, false), Ok(counts(1, 0)));
    assert_eq!(process_item(&Declaration::Module, true), Ok(counts(0, 1)));
}

#[test]
fn other_declaration_is_unsupported() {
    assert_eq!(
        process_item(&Declaration::Other(DeclarationKind::Impl), true),
        Err(UnsupportedConstruct::Declaration(DeclarationKind::Impl))
    );
}

#[test]
fn one_block_counts_as_many_single_blocks() {
    for n in 1..6 {
        let whole = function(false, vec![unsafe_block((0..n).map(|_| call_stmt()).collect())]);
        let split = function(false, (0..n).map(|_| unsafe_block(vec![call_stmt()])).collect());
        assert_eq!(process_item(&whole, false), process_item(&split, false));
        assert_eq!(process_item(&whole, false), Ok(counts(1, n)));
    }
}

#[test]
fn split_blocks_fail_alike() {
    let bad = Statement::Semi(Expression::Other(ExpressionKind::Binary));
    let worse = Statement::Semi(Expression::Other(ExpressionKind::Index));
    let whole = vec![unsafe_block(vec![call_stmt(), bad, worse])];
    let bad = Statement::Semi(Expression::Other(ExpressionKind::Binary));
    let worse = Statement::Semi(Expression::Other(ExpressionKind::Index));
    let split = vec![
        unsafe_block(vec![call_stmt()]),
        unsafe_block(vec![bad]),
        unsafe_block(vec![worse]),
    ];
    assert_eq!(process_block(&whole, false), process_block(&split, false));
    assert_eq!(
        process_block(&whole, false),
        Err(UnsupportedConstruct::Expression(ExpressionKind::Binary))
    );
}

#[test]
fn empty_sequences_count_nothing() {
    assert_eq!(process_block(&vec![], false), Ok(counts(0, 0)));
    assert_eq!(process_arguments(&vec![], true), Ok(counts(0, 0)));
    assert_eq!(classify_tree(&vec![]), Ok(counts(0, 0)));
}

#[test]
fn arguments_are_joined_in_order() {
    let args = vec![
        call(),
        Expression::Other(ExpressionKind::Path),
        Expression::Other(ExpressionKind::Lit),
    ];
    assert_eq!(
        process_arguments(&args, false),
        Err(UnsupportedConstruct::Expression(ExpressionKind::Path))
    );
    assert_eq!(process_arguments(&vec![call(), Expression::Macro], true), Ok(counts(0, 2)));
}

#[test]
fn tree_is_classified_from_safe_surroundings() {
    let tree = vec![
        function(true, vec![Statement::Semi(Expression::Macro)]),
        function(false, vec![]),
    ];
    assert_eq!(classify_tree(&tree), Ok(counts(1, 2)));
}

#[test]
fn tree_fails_on_the_first_unsupported_declaration() {
    let tree = vec![
        function(false, vec![]),
        Declaration::Other(DeclarationKind::Const),
        Declaration::Other(DeclarationKind::Static),
    ];
    assert_eq!(
        classify_tree(&tree),
        Err(UnsupportedConstruct::Declaration(DeclarationKind::Const))
    );
}

#[test]
fn deep_nesting_keeps_the_flag() {
    let mut expr = call();
    for _ in 0..50 {
        expr = Expression::Call { args: vec![expr] };
    }
    let item = function(false, vec![unsafe_block(vec![Statement::Semi(expr)])]);
    assert_eq!(process_item(&item, false), Ok(counts(1, 51)));
}

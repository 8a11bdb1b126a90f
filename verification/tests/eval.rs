//! Tests for expression lowering and the two evaluation modes:
//! precedence, operator semantics, cross-mode agreement, and the hard
//! arithmetic errors.

use gor_ast::errors::AstError;
use gor_ast::errors::EvalError;
use gor_ast::errors::Field;
use gor_ast::errors::Position;
use gor_ast::errors::StaticFailure;
use gor_ast::eval::try_static_eval;
use gor_ast::eval::EvaluationContext;
use gor_ast::eval::Value;
use gor_ast::expr::lower_expression;
use gor_ast::expr::Expression;
use gor_ast::names::Name;
use gor_ast::rules::ParseNode;
use gor_ast::rules::Rule;
use gor_ast::rules::Span;

fn node(rule: Rule, text: &str, start: usize, end: usize, children: Vec<ParseNode>) -> ParseNode {
    ParseNode { rule, text: text.to_owned(), span: Span { start, end }, children }
}

fn int_lit(text: &str) -> ParseNode {
    node(Rule::IntLit, text, 0, text.len(), vec![])
}

fn op(rule: Rule) -> ParseNode {
    node(rule, "", 0, 0, vec![])
}

fn neg(term: ParseNode) -> ParseNode {
    node(Rule::UnaryMinus, "", 0, 0, vec![term])
}

fn paren(children: Vec<ParseNode>) -> ParseNode {
    let inner = node(Rule::Expr, "", 0, 0, children);
    node(Rule::Paren, "", 0, 0, vec![inner])
}

fn expr(children: Vec<ParseNode>) -> ParseNode {
    node(Rule::Expr, "", 0, 0, children)
}

fn lower(children: Vec<ParseNode>) -> Expression {
    lower_expression(&expr(children)).unwrap()
}

/// Both evaluation modes must produce the expected value.
fn assert_both(expected: i64, e: &Expression) {
    assert_static_expression(Value::Int(expected), e);
    assert_expression(Value::Int(expected), e);
}

fn assert_static_expression(expected: Value, e: &Expression) {
    assert_eq!(Ok(expected), try_static_eval(e), "expression was {:?} => {:?}", e.span, e.inner);
}

fn assert_expression(expected: Value, e: &Expression) {
    let context = EvaluationContext::new();
    assert_eq!(
        Ok(expected),
        e.evaluate(&context),
        "expression was {:?} => {:?}",
        e.span,
        e.inner
    );
}

#[test]
fn int_add() {
    assert_both(3, &lower(vec![int_lit("1"), op(Rule::OpAdd), int_lit("2")]));
}

#[test]
fn multiply_higher_precedence_than_add() {
    assert_both(
        14,
        &lower(vec![int_lit("2"), op(Rule::OpAdd), int_lit("3"), op(Rule::OpMul), int_lit("4")]),
    );
}

#[test]
fn parens() {
    assert_both(
        9,
        &lower(vec![
            paren(vec![int_lit("1"), op(Rule::OpAdd), int_lit("2")]),
            op(Rule::OpMul),
            int_lit("3"),
        ]),
    );
}

#[test]
fn negative() {
    assert_both(-1, &lower(vec![neg(int_lit("1"))]));
}

#[test]
fn bit_and() {
    assert_both(2, &lower(vec![int_lit("6"), op(Rule::OpBitAnd), int_lit("3")]));
}

#[test]
fn bit_or() {
    assert_both(3, &lower(vec![int_lit("1"), op(Rule::OpBitOr), int_lit("2")]));
}

#[test]
fn shl() {
    assert_both(13631488, &lower(vec![int_lit("13"), op(Rule::OpShl), int_lit("20")]));
}

#[test]
fn shr() {
    assert_both(97, &lower(vec![int_lit("100000"), op(Rule::OpShr), int_lit("10")]));
}

#[test]
fn xor() {
    assert_both(12, &lower(vec![int_lit("6"), op(Rule::OpBitXor), int_lit("10")]));
}

#[test]
fn bit_nand() {
    assert_both(4, &lower(vec![int_lit("6"), op(Rule::OpBitClear), int_lit("10")]));
}

#[test]
fn subtraction_is_left_associative() {
    assert_both(
        5,
        &lower(vec![int_lit("10"), op(Rule::OpSub), int_lit("3"), op(Rule::OpSub), int_lit("2")]),
    );
}

#[test]
fn division_is_left_associative() {
    assert_both(
        2,
        &lower(vec![int_lit("100"), op(Rule::OpDiv), int_lit("10"), op(Rule::OpDiv), int_lit("5")]),
    );
}

#[test]
fn two_multiplicative_chains() {
    assert_both(
        26,
        &lower(vec![
            int_lit("2"),
            op(Rule::OpMul),
            int_lit("3"),
            op(Rule::OpAdd),
            int_lit("4"),
            op(Rule::OpMul),
            int_lit("5"),
        ]),
    );
}

#[test]
fn modulo() {
    assert_both(1, &lower(vec![int_lit("7"), op(Rule::OpRem), int_lit("2")]));
}

#[test]
fn division_truncates_toward_zero() {
    assert_both(-3, &lower(vec![neg(int_lit("7")), op(Rule::OpDiv), int_lit("2")]));
}

#[test]
fn modulo_takes_sign_of_dividend() {
    assert_both(-1, &lower(vec![neg(int_lit("7")), op(Rule::OpRem), int_lit("2")]));
}

#[test]
fn addition_wraps() {
    assert_both(
        i64::MIN,
        &lower(vec![int_lit("9223372036854775807"), op(Rule::OpAdd), int_lit("1")]),
    );
}

#[test]
fn shift_amount_taken_modulo_width() {
    // 66 modulo the 64-bit operand width is 2.
    assert_both(4, &lower(vec![int_lit("1"), op(Rule::OpShl), int_lit("66")]));
}

#[test]
fn division_by_zero() {
    let e = lower(vec![int_lit("1"), op(Rule::OpDiv), int_lit("0")]);
    assert_eq!(
        Err(StaticFailure::Hard(EvalError::DivisionByZero)),
        try_static_eval(&e)
    );
    let context = EvaluationContext::new();
    assert_eq!(Err(EvalError::DivisionByZero), e.evaluate(&context));
}

#[test]
fn modulo_by_zero() {
    let e = lower(vec![int_lit("7"), op(Rule::OpRem), int_lit("0")]);
    assert_eq!(
        Err(StaticFailure::Hard(EvalError::ModuloByZero)),
        try_static_eval(&e)
    );
    let context = EvaluationContext::new();
    assert_eq!(Err(EvalError::ModuloByZero), e.evaluate(&context));
}

#[test]
fn leading_zeros_in_literal() {
    assert_both(7, &lower(vec![int_lit("007")]));
}

#[test]
fn span_covers_whole_expression() {
    let left = node(Rule::IntLit, "1", 0, 1, vec![]);
    let right = node(Rule::IntLit, "2", 4, 5, vec![]);
    let e = lower_expression(&expr(vec![left, op(Rule::OpAdd), right])).unwrap();
    assert_eq!(e.span, Span { start: 0, end: 5 });
}

#[test]
fn non_expression_node_rejected() {
    let e = lower_expression(&int_lit("1"));
    assert_eq!(
        e.unwrap_err(),
        AstError::RuleMismatch { expected: Rule::Expr, actual: Rule::IntLit }
    );
}

#[test]
fn trailing_operator_rejected() {
    let e = lower_expression(&expr(vec![int_lit("1"), op(Rule::OpAdd)]));
    assert_eq!(e.unwrap_err(), AstError::MissingField(Field::Term));
}

#[test]
fn empty_expression_rejected() {
    let e = lower_expression(&expr(vec![]));
    assert_eq!(e.unwrap_err(), AstError::MissingField(Field::Term));
}

#[test]
fn operator_in_term_position_rejected() {
    let e = lower_expression(&expr(vec![op(Rule::OpAdd)]));
    assert_eq!(
        e.unwrap_err(),
        AstError::UnexpectedRule { context: Position::TermOfExpression, actual: Rule::OpAdd }
    );
}

#[test]
fn term_in_operator_position_rejected() {
    let e = lower_expression(&expr(vec![int_lit("1"), int_lit("2"), int_lit("3")]));
    assert_eq!(
        e.unwrap_err(),
        AstError::UnexpectedRule { context: Position::OperatorOfExpression, actual: Rule::IntLit }
    );
}

#[test]
fn non_decimal_literal_rejected() {
    let e = lower_expression(&expr(vec![int_lit("abc")]));
    assert_eq!(e.unwrap_err(), AstError::InvalidLiteral);
}

#[test]
fn empty_literal_rejected() {
    let e = lower_expression(&expr(vec![int_lit("")]));
    assert_eq!(e.unwrap_err(), AstError::InvalidLiteral);
}

#[test]
fn oversized_literal_rejected() {
    let e = lower_expression(&expr(vec![int_lit("9223372036854775808")]));
    assert_eq!(e.unwrap_err(), AstError::InvalidLiteral);
}

#[test]
fn unary_minus_without_operand_rejected() {
    let bare = node(Rule::UnaryMinus, "", 0, 0, vec![]);
    let e = lower_expression(&expr(vec![bare]));
    assert_eq!(e.unwrap_err(), AstError::MissingField(Field::UnaryOperand));
}

#[test]
fn parens_without_expression_rejected() {
    let bare = node(Rule::Paren, "", 0, 0, vec![]);
    let e = lower_expression(&expr(vec![bare]));
    assert_eq!(e.unwrap_err(), AstError::MissingField(Field::GroupExpression));
}

#[test]
fn context_bindings_resolve_last_wins() {
    let mut context = EvaluationContext::new();
    assert_eq!(None, context.resolve("x"));
    context.bind(Name::new("x"), Value::Int(1));
    context.bind(Name::new("y"), Value::Int(2));
    context.bind(Name::new("x"), Value::Int(3));
    assert_eq!(Some(Value::Int(3)), context.resolve("x"));
    assert_eq!(Some(Value::Int(2)), context.resolve("y"));
    assert_eq!(None, context.resolve("z"));
}

#[test]
fn context_does_not_change_pure_arithmetic() {
    let e = lower(vec![int_lit("2"), op(Rule::OpAdd), int_lit("2")]);
    let mut context = EvaluationContext::new();
    context.bind(Name::new("x"), Value::Int(41));
    assert_eq!(Ok(Value::Int(4)), e.evaluate(&context));
    assert_eq!(Ok(Value::Int(4)), try_static_eval(&e));
}

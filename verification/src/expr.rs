//! Expression trees and their lowering from the raw parse tree.
//!
//! A parse-tree expression node carries terms at even positions and
//! binary operators at odd ones; lowering bakes precedence into the
//! shape of the resulting tree: unary minus and parentheses bind
//! tightest, then the multiplicative operators (`* / % << >> & &^`),
//! then the additive ones (`+ - | ^`), all binary operators associating
//! to the left.

use crate::errors::AstError;
use crate::errors::Field;
use crate::errors::Position;
use crate::rules::ParseNode;
use crate::rules::Rule;
use crate::rules::Span;
use vstd::prelude::*;

verus! {

/// A binary operator of the expression grammar.
#[derive(Clone, Copy, Debug, PartialEq, Eq, Structural)]
pub enum BinOp {
    Add,
    Sub,
    Mul,
    Div,
    Rem,
    BitAnd,
    BitOr,
    BitXor,
    /// Bit-clear (AND-NOT): bits set in the left operand and not in the right.
    BitClear,
    Shl,
    Shr,
}

/// The tagged variants an expression node can take.
#[derive(Debug)]
pub enum ExprKind {
    /// An integer literal.
    Int(i64),
    /// Unary negation of a sub-expression.
    Neg(Box<Expression>),
    /// A parenthesized sub-expression: transparent for evaluation.
    Paren(Box<Expression>),
    /// A binary operator applied to two sub-expressions.
    Binary(BinOp, Box<Expression>, Box<Expression>),
}

/// A node of the expression tree, carrying its source span for
/// diagnostics.
#[derive(Debug)]
pub struct Expression {
    pub span: Span,
    pub inner: ExprKind,
}

/// Whether the operator belongs to the additive precedence level
/// (`+ - | ^`); the rest are multiplicative (`* / % << >> & &^`).
pub open spec fn spec_is_additive(op: BinOp) -> bool {
    op == BinOp::Add || op == BinOp::Sub || op == BinOp::BitOr || op == BinOp::BitXor
}

/// Runtime check for the additive precedence level.
pub fn is_additive(op: BinOp) -> (res: bool)
    ensures
        res == spec_is_additive(op),
{
    match op {
        BinOp::Add => true,
        BinOp::Sub => true,
        BinOp::BitOr => true,
        BinOp::BitXor => true,
        _ => false,
    }
}

/// The binary operator a parse-tree rule tag stands for, if any.
pub open spec fn spec_op_of_rule(r: Rule) -> Option<BinOp> {
    match r {
        Rule::OpAdd => Some(BinOp::Add),
        Rule::OpSub => Some(BinOp::Sub),
        Rule::OpMul => Some(BinOp::Mul),
        Rule::OpDiv => Some(BinOp::Div),
        Rule::OpRem => Some(BinOp::Rem),
        Rule::OpBitAnd => Some(BinOp::BitAnd),
        Rule::OpBitOr => Some(BinOp::BitOr),
        Rule::OpBitXor => Some(BinOp::BitXor),
        Rule::OpBitClear => Some(BinOp::BitClear),
        Rule::OpShl => Some(BinOp::Shl),
        Rule::OpShr => Some(BinOp::Shr),
        _ => None,
    }
}

/// Maps a parse-tree rule tag to the binary operator it stands for.
pub fn op_of_rule(r: Rule) -> (res: Option<BinOp>)
    ensures
        res == spec_op_of_rule(r),
{
    match r {
        Rule::OpAdd => Some(BinOp::Add),
        Rule::OpSub => Some(BinOp::Sub),
        Rule::OpMul => Some(BinOp::Mul),
        Rule::OpDiv => Some(BinOp::Div),
        Rule::OpRem => Some(BinOp::Rem),
        Rule::OpBitAnd => Some(BinOp::BitAnd),
        Rule::OpBitOr => Some(BinOp::BitOr),
        Rule::OpBitXor => Some(BinOp::BitXor),
        Rule::OpBitClear => Some(BinOp::BitClear),
        Rule::OpShl => Some(BinOp::Shl),
        Rule::OpShr => Some(BinOp::Shr),
        _ => None,
    }
}

/// Whether `c` is a decimal digit.
pub open spec fn spec_is_digit(c: char) -> bool {
    48 <= c as u32 && c as u32 <= 57
}

/// Whether `s` is a non-empty sequence of decimal digits.
pub open spec fn spec_is_digits(s: Seq<char>) -> bool {
    s.len() > 0 && forall|i: int| 0 <= i < s.len() ==> spec_is_digit(s[i])
}

/// The value of a sequence of decimal digits, most significant first.
pub open spec fn spec_digits_val(s: Seq<char>) -> int
    decreases s.len(),
{
    if s.len() == 0 {
        0
    } else {
        spec_digits_val(s.drop_last()) * 10 + (s.last() as u32 - 48)
    }
}

proof fn lemma_digits_val_nonneg(s: Seq<char>)
    requires
        forall|i: int| 0 <= i < s.len() ==> spec_is_digit(s[i]),
    ensures
        spec_digits_val(s) >= 0,
    decreases s.len(),
{
    if s.len() > 0 {
        lemma_digits_val_nonneg(s.drop_last());
    }
}

/// A longer digit prefix never has a smaller value: once a prefix
/// overflows the value type, the whole literal does too.
proof fn lemma_digits_val_mono(s: Seq<char>, i: int, j: int)
    requires
        0 <= i <= j <= s.len(),
        forall|t: int| 0 <= t < j ==> spec_is_digit(s[t]),
    ensures
        spec_digits_val(s.take(i)) <= spec_digits_val(s.take(j)),
    decreases j - i,
{
    if i < j {
        lemma_digits_val_mono(s, i, j - 1);
        assert(s.take(j).drop_last() =~= s.take(j - 1));
        assert(forall|t: int| 0 <= t < j - 1 ==> spec_is_digit(#[trigger] s.take(j - 1)[t]));
        lemma_digits_val_nonneg(s.take(j - 1));
    }
}

/// Parses a non-empty all-digit decimal literal that fits the value
/// type; anything else is reported as no value.
pub fn parse_int(s: &str) -> (res: Option<i64>)
    ensures
        match res {
            Some(v) => spec_is_digits(s@) && spec_digits_val(s@) <= i64::MAX
                && v == spec_digits_val(s@),
            None => !(spec_is_digits(s@) && spec_digits_val(s@) <= i64::MAX),
        },
{
    let n = s.unicode_len();
    if n == 0 {
        return None;
    }
    let mut acc: i64 = 0;
    let mut i: usize = 0;
    while i < n
        invariant
            i <= n,
            n == s@.len(),
            forall|t: int| 0 <= t < i ==> spec_is_digit(s@[t]),
            acc == spec_digits_val(s@.take(i as int)),
            0 <= acc,
        decreases n - i,
    {
        let c = s.get_char(i);
        let d: u32 = c as u32;
        if d < 48 || d > 57 {
            assert(!spec_is_digit(s@[i as int]));
            return None;
        }
        let dd: i64 = (d - 48) as i64;
        let step = match acc.checked_mul(10) {
            Some(m) => m.checked_add(dd),
            None => None,
        };
        match step {
            Some(v) => {
                proof {
                    assert(s@.take(i + 1).drop_last() =~= s@.take(i as int));
                    assert(s@.take(i + 1).last() == s@[i as int]);
                }
                acc = v;
            },
            None => {
                // The prefix up to and including this digit already
                // exceeds the value type, so the whole literal does.
                proof {
                    assert(s@.take(i + 1).drop_last() =~= s@.take(i as int));
                    assert(spec_digits_val(s@.take(i + 1)) > i64::MAX);
                    if spec_is_digits(s@) {
                        lemma_digits_val_mono(s@, i + 1, s@.len() as int);
                        assert(s@.take(s@.len() as int) =~= s@);
                    }
                }
                return None;
            },
        }
        i = i + 1;
    }
    proof {
        assert(s@.take(n as int) =~= s@);
    }
    Some(acc)
}

/// The expression standing for `op` applied to `l` and `r`; its span
/// runs from the start of the left operand to the end of the right one.
pub open spec fn spec_bin(op: BinOp, l: Expression, r: Expression) -> Expression {
    Expression {
        span: Span { start: l.span.start, end: r.span.end },
        inner: ExprKind::Binary(op, Box::new(l), Box::new(r)),
    }
}

fn bin_expr(op: BinOp, l: Expression, r: Expression) -> (res: Expression)
    ensures
        res == spec_bin(op, l, r),
{
    let start = l.span.start;
    let end = r.span.end;
    Expression { span: Span { start, end }, inner: ExprKind::Binary(op, Box::new(l), Box::new(r)) }
}

/// A left-associative chain within one precedence level:
/// `t0 op0 t1 op1 t2` becomes `(t0 op0 t1) op1 t2`.
pub open spec fn spec_chain(terms: Seq<Expression>, ops: Seq<BinOp>) -> Expression
    recommends
        terms.len() == ops.len() + 1,
    decreases ops.len(),
{
    if ops.len() == 0 {
        terms[0]
    } else {
        spec_bin(ops.last(), spec_chain(terms.drop_last(), ops.drop_last()), terms.last())
    }
}

/// The index of the last additive operator, or -1 if every operator is
/// multiplicative.
pub open spec fn spec_last_additive(ops: Seq<BinOp>) -> int
    decreases ops.len(),
{
    if ops.len() == 0 {
        -1
    } else if spec_is_additive(ops.last()) {
        ops.len() - 1
    } else {
        spec_last_additive(ops.drop_last())
    }
}

proof fn lemma_last_additive_range(ops: Seq<BinOp>)
    ensures
        -1 <= spec_last_additive(ops) < ops.len(),
    decreases ops.len(),
{
    if ops.len() > 0 && !spec_is_additive(ops.last()) {
        lemma_last_additive_range(ops.drop_last());
    }
}

proof fn lemma_last_additive_at(ops: Seq<BinOp>, k: int)
    requires
        0 <= k < ops.len(),
        spec_is_additive(ops[k]),
        forall|t: int| k < t < ops.len() ==> !spec_is_additive(ops[t]),
    ensures
        spec_last_additive(ops) == k,
    decreases ops.len(),
{
    if k < ops.len() - 1 {
        assert(forall|t: int| k < t < ops.drop_last().len() ==> !spec_is_additive(
            ops.drop_last()[t],
        ));
        lemma_last_additive_at(ops.drop_last(), k);
    }
}

proof fn lemma_no_additive(ops: Seq<BinOp>)
    requires
        forall|t: int| 0 <= t < ops.len() ==> !spec_is_additive(ops[t]),
    ensures
        spec_last_additive(ops) == -1,
    decreases ops.len(),
{
    if ops.len() > 0 {
        lemma_no_additive(ops.drop_last());
    }
}

/// The precedence-correct tree over a flat operand/operator listing:
/// the root is the last additive operator; everything to its right is a
/// purely multiplicative chain, everything to its left is again an
/// expression; both levels associate to the left.
pub open spec fn spec_tree(terms: Seq<Expression>, ops: Seq<BinOp>) -> Expression
    recommends
        terms.len() == ops.len() + 1,
    decreases ops.len(),
    via spec_tree_decreases
{
    if ops.len() == 0 {
        terms[0]
    } else {
        let k = spec_last_additive(ops);
        if k >= 0 {
            spec_bin(
                ops[k],
                spec_tree(terms.take(k + 1), ops.take(k)),
                spec_chain(terms.skip(k + 1), ops.skip(k + 1)),
            )
        } else {
            spec_chain(terms, ops)
        }
    }
}

#[via_fn]
proof fn spec_tree_decreases(terms: Seq<Expression>, ops: Seq<BinOp>) {
    lemma_last_additive_range(ops);
}

/// Builds a left-associative chain within one precedence level.
fn chain(terms: Vec<Expression>, ops: Vec<BinOp>) -> (res: Expression)
    requires
        terms@.len() == ops@.len() + 1,
    ensures
        res == spec_chain(terms@, ops@),
{
    let ghost full_terms = terms@;
    let ghost full_ops = ops@;
    let mut terms = terms;
    let mut acc = terms.remove(0);
    let mut i: usize = 0;
    proof {
        assert(full_terms.take(1).drop_last() =~= full_terms.take(0));
        assert(spec_chain(full_terms.take(1), full_ops.take(0)) == full_terms[0]);
    }
    while i < ops.len()
        invariant
            i <= full_ops.len(),
            ops@ == full_ops,
            full_terms.len() == full_ops.len() + 1,
            terms@ == full_terms.skip(i + 1),
            acc == spec_chain(full_terms.take(i + 1), full_ops.take(i as int)),
        decreases ops@.len() - i,
    {
        let t = terms.remove(0);
        proof {
            assert(full_terms.skip(i + 1)[0] == full_terms[i + 1]);
            assert(full_terms.skip(i + 1).drop_first() =~= full_terms.skip(i + 2));
        }
        acc = bin_expr(ops[i], acc, t);
        proof {
            assert(full_terms.take(i + 2).drop_last() =~= full_terms.take(i + 1));
            assert(full_ops.take(i + 1).drop_last() =~= full_ops.take(i as int));
            assert(full_terms.take(i + 2).last() == full_terms[i + 1]);
            assert(full_ops.take(i + 1).last() == full_ops[i as int]);
        }
        i = i + 1;
    }
    proof {
        assert(full_terms.take(full_ops.len() + 1 as int) =~= full_terms);
        assert(full_ops.take(full_ops.len() as int) =~= full_ops);
    }
    acc
}

/// Builds the precedence-correct tree over the flat operand/operator
/// listing of one expression node.
fn build_tree(terms: Vec<Expression>, ops: Vec<BinOp>) -> (res: Expression)
    requires
        terms@.len() == ops@.len() + 1,
    ensures
        res == spec_tree(terms@, ops@),
    decreases ops@.len(),
{
    let ghost full_terms = terms@;
    let ghost full_ops = ops@;
    let n_ops = ops.len();
    let mut last_add: Option<usize> = None;
    let mut i: usize = 0;
    while i < n_ops
        invariant
            i <= n_ops,
            n_ops == full_ops.len(),
            ops@ == full_ops,
            match last_add {
                Some(k) => k < i && spec_is_additive(full_ops[k as int]) && forall|t: int|
                    k < t < i ==> !spec_is_additive(full_ops[t]),
                None => forall|t: int| 0 <= t < i ==> !spec_is_additive(full_ops[t]),
            },
        decreases n_ops - i,
    {
        if is_additive(ops[i]) {
            last_add = Some(i);
        }
        i = i + 1;
    }
    match last_add {
        None => {
            proof {
                lemma_no_additive(full_ops);
            }
            chain(terms, ops)
        },
        Some(k) => {
            proof {
                lemma_last_additive_at(full_ops, k as int);
            }
            let mut terms = terms;
            let mut ops = ops;
            let right_terms = terms.split_off(k + 1);
            let right_ops = ops.split_off(k + 1);
            let op = ops.pop().unwrap();
            proof {
                assert(terms@ =~= full_terms.take(k + 1));
                assert(ops@ =~= full_ops.take(k as int));
                assert(right_terms@ =~= full_terms.skip(k + 1));
                assert(right_ops@ =~= full_ops.skip(k + 1));
                assert(op == full_ops[k as int]);
            }
            let left = build_tree(terms, ops);
            let right = chain(right_terms, right_ops);
            bin_expr(op, left, right)
        },
    }
}

/// What lowering makes of one term of an expression: an integer
/// literal, a unary minus, or a parenthesized expression; any other
/// rule tag is rejected.
pub open spec fn spec_lower_term(n: ParseNode) -> Result<Expression, AstError>
    decreases n, 2int, 0int,
{
    if n.rule == Rule::IntLit {
        if spec_is_digits(n.text@) && spec_digits_val(n.text@) <= i64::MAX {
            Ok(
                Expression {
                    span: n.span,
                    inner: ExprKind::Int(spec_digits_val(n.text@) as i64),
                },
            )
        } else {
            Err(AstError::InvalidLiteral)
        }
    } else if n.rule == Rule::UnaryMinus {
        if n.children@.len() == 0 {
            Err(AstError::MissingField(Field::UnaryOperand))
        } else {
            match spec_lower_term(n.children@[0]) {
                Ok(t) => Ok(Expression { span: n.span, inner: ExprKind::Neg(Box::new(t)) }),
                Err(e) => Err(e),
            }
        }
    } else if n.rule == Rule::Paren {
        if n.children@.len() == 0 {
            Err(AstError::MissingField(Field::GroupExpression))
        } else {
            match spec_lower_expr(n.children@[0]) {
                Ok(t) => Ok(Expression { span: n.span, inner: ExprKind::Paren(Box::new(t)) }),
                Err(e) => Err(e),
            }
        }
    } else {
        Err(AstError::UnexpectedRule { context: Position::TermOfExpression, actual: n.rule })
    }
}

/// What scanning the children of an expression node from position `i`
/// on yields: terms at even positions, operators at odd ones, the
/// first offending child deciding the error.
pub open spec fn spec_scan(cs: Seq<ParseNode>, i: int) -> Result<
    (Seq<Expression>, Seq<BinOp>),
    AstError,
>
    decreases cs, 1int, cs.len() - i,
{
    if i < 0 || i >= cs.len() {
        Ok((Seq::empty(), Seq::empty()))
    } else if i % 2 == 0 {
        match spec_lower_term(cs[i]) {
            Err(e) => Err(e),
            Ok(t) => match spec_scan(cs, i + 1) {
                Err(e) => Err(e),
                Ok(rest) => Ok((seq![t] + rest.0, rest.1)),
            },
        }
    } else {
        match spec_op_of_rule(cs[i].rule) {
            None => Err(
                AstError::UnexpectedRule {
                    context: Position::OperatorOfExpression,
                    actual: cs[i].rule,
                },
            ),
            Some(op) => match spec_scan(cs, i + 1) {
                Err(e) => Err(e),
                Ok(rest) => Ok((rest.0, seq![op] + rest.1)),
            },
        }
    }
}

/// What lowering makes of an expression node: the node's tag must be
/// the expression rule, its children must alternate term and operator
/// and end on a term, and the resulting tree is the precedence-correct
/// one over that listing.
pub open spec fn spec_lower_expr(n: ParseNode) -> Result<Expression, AstError>
    decreases n, 3int, 0int,
{
    if n.rule != Rule::Expr {
        Err(AstError::RuleMismatch { expected: Rule::Expr, actual: n.rule })
    } else {
        match spec_scan(n.children@, 0) {
            Err(e) => Err(e),
            Ok(parts) => if parts.0.len() == parts.1.len() + 1 {
                Ok(spec_tree(parts.0, parts.1))
            } else {
                Err(AstError::MissingField(Field::Term))
            },
        }
    }
}

/// Lowers one term of an expression.
pub fn lower_term(node: &ParseNode) -> (res: Result<Expression, AstError>)
    ensures
        res == spec_lower_term(*node),
    decreases *node, 2int, 0int,
{
    if node.rule == Rule::IntLit {
        match parse_int(node.text.as_str()) {
            Some(v) => Ok(Expression { span: node.span, inner: ExprKind::Int(v) }),
            None => Err(AstError::InvalidLiteral),
        }
    } else if node.rule == Rule::UnaryMinus {
        if node.children.len() == 0 {
            Err(AstError::MissingField(Field::UnaryOperand))
        } else {
            match lower_term(&node.children[0]) {
                Ok(t) => Ok(
                    Expression { span: node.span, inner: ExprKind::Neg(Box::new(t)) },
                ),
                Err(e) => Err(e),
            }
        }
    } else if node.rule == Rule::Paren {
        if node.children.len() == 0 {
            Err(AstError::MissingField(Field::GroupExpression))
        } else {
            match lower_expression(&node.children[0]) {
                Ok(t) => Ok(
                    Expression { span: node.span, inner: ExprKind::Paren(Box::new(t)) },
                ),
                Err(e) => Err(e),
            }
        }
    } else {
        Err(AstError::UnexpectedRule { context: Position::TermOfExpression, actual: node.rule })
    }
}

/// Lowers an expression node into a precedence-correct expression tree.
pub fn lower_expression(node: &ParseNode) -> (res: Result<Expression, AstError>)
    ensures
        res == spec_lower_expr(*node),
    decreases *node, 3int, 0int,
{
    if node.rule != Rule::Expr {
        return Err(AstError::RuleMismatch { expected: Rule::Expr, actual: node.rule });
    }
    let ghost cs = node.children@;
    let n = node.children.len();
    let mut terms: Vec<Expression> = Vec::new();
    let mut ops: Vec<BinOp> = Vec::new();
    let mut i: usize = 0;
    while i < n
        invariant
            i <= n,
            n == cs.len(),
            node.children@ == cs,
            node.rule == Rule::Expr,
            terms@.len() == (i + 1) / 2,
            ops@.len() == i / 2,
            spec_scan(cs, 0) == match spec_scan(cs, i as int) {
                Ok(rest) => Ok::<_, AstError>((terms@ + rest.0, ops@ + rest.1)),
                Err(e) => Err::<(Seq<Expression>, Seq<BinOp>), _>(e),
            },
        decreases n - i,
    {
        if i % 2 == 0 {
            match lower_term(&node.children[i]) {
                Ok(t) => {
                    let ghost gt = t;
                    let ghost old_terms = terms@;
                    terms.push(t);
                    proof {
                        assert(spec_lower_term(cs[i as int]) == Ok::<Expression, AstError>(gt));
                        if let Ok(rest) = spec_scan(cs, i + 1) {
                            assert(spec_scan(cs, i as int) == Ok::<
                                (Seq<Expression>, Seq<BinOp>),
                                AstError,
                            >((seq![gt] + rest.0, rest.1)));
                            assert(terms@ =~= old_terms + seq![gt]);
                            assert(old_terms + (seq![gt] + rest.0) =~= terms@ + rest.0);
                        } else {
                            assert(spec_scan(cs, i as int) == spec_scan(cs, i + 1));
                        }
                    }
                },
                Err(e) => {
                    return Err(e);
                },
            }
        } else {
            match op_of_rule(node.children[i].rule) {
                Some(op) => {
                    let ghost old_ops = ops@;
                    ops.push(op);
                    proof {
                        if let Ok(rest) = spec_scan(cs, i + 1) {
                            assert(spec_scan(cs, i as int) == Ok::<
                                (Seq<Expression>, Seq<BinOp>),
                                AstError,
                            >((rest.0, seq![op] + rest.1)));
                            assert(ops@ =~= old_ops + seq![op]);
                            assert(old_ops + (seq![op] + rest.1) =~= ops@ + rest.1);
                        } else {
                            assert(spec_scan(cs, i as int) == spec_scan(cs, i + 1));
                        }
                    }
                },
                None => {
                    return Err(
                        AstError::UnexpectedRule {
                            context: Position::OperatorOfExpression,
                            actual: node.children[i].rule,
                        },
                    );
                },
            }
        }
        i = i + 1;
    }
    proof {
        assert(terms@ + Seq::<Expression>::empty() =~= terms@);
        assert(ops@ + Seq::<BinOp>::empty() =~= ops@);
    }
    if terms.len() == ops.len() + 1 {
        Ok(build_tree(terms, ops))
    } else {
        Err(AstError::MissingField(Field::Term))
    }
}

} // verus!

//! Dual-mode expression evaluation.
//!
//! Operator semantics are two's-complement fixed-width signed-integer
//! arithmetic: addition, subtraction, multiplication and unary negation
//! wrap; division and modulo truncate toward zero and fail hard on a
//! zero divisor; shift amounts are taken modulo the operand width.
//! Both evaluators share this semantics, so their results agree on
//! every expression the static evaluator can reduce.

use crate::errors::EvalError;
use crate::errors::StaticFailure;
use crate::expr::BinOp;
use crate::expr::ExprKind;
use crate::expr::Expression;
use crate::names::Name;
use vstd::arithmetic::div_mod::lemma_div_nonincreasing;
use vstd::arithmetic::div_mod::lemma_div_pos_is_pos;
use vstd::prelude::*;

verus! {

/// The result type of evaluation: at minimum a signed integer, built
/// to extend to other literal kinds without changing evaluator control
/// flow. Equality is structural.
#[derive(Clone, Copy, Debug, PartialEq, Eq, Structural)]
pub enum Value {
    Int(i64),
}

/// The shift amount an operand asks for, taken modulo the operand
/// width of 64 bits (the low six bits of its two's-complement pattern).
pub open spec fn spec_shift_amount(r: i64) -> u32 {
    (((r as u64) % 64) as u32)
}

/// Division truncated toward zero, as the source language defines it,
/// expressed through Euclidean division on non-negative operands.
pub open spec fn spec_trunc_div(x: int, d: int) -> int
    recommends
        d != 0,
{
    if x == 0 {
        0
    } else if x > 0 && d > 0 {
        x / d
    } else if x < 0 && d < 0 {
        (x * -1) / (d * -1)
    } else if x < 0 {
        ((x * -1) / d) * -1
    } else {
        (x / (d * -1)) * -1
    }
}

/// Remainder of division truncated toward zero: the result takes the
/// sign of the dividend.
pub open spec fn spec_trunc_rem(x: int, d: int) -> int
    recommends
        d != 0,
{
    if x == 0 {
        0
    } else if x > 0 && d > 0 {
        x % d
    } else if x < 0 && d < 0 {
        ((x * -1) % (d * -1)) * -1
    } else if x < 0 {
        ((x * -1) % d) * -1
    } else {
        x % (d * -1)
    }
}

/// Wrapping unary negation.
pub open spec fn spec_neg(v: i64) -> i64 {
    vstd::wrapping::i64_specs::wrapping_sub(0, v)
}

/// What one binary operator yields on two already-reduced integer
/// operands; the single place the operator semantics are defined.
pub open spec fn spec_binop(op: BinOp, l: i64, r: i64) -> Result<i64, EvalError> {
    match op {
        BinOp::Add => Ok(vstd::wrapping::i64_specs::wrapping_add(l, r)),
        BinOp::Sub => Ok(vstd::wrapping::i64_specs::wrapping_sub(l, r)),
        BinOp::Mul => Ok(vstd::wrapping::i64_specs::wrapping_mul(l, r)),
        BinOp::Div => if r == 0 {
            Err(EvalError::DivisionByZero)
        } else {
            let q = spec_trunc_div(l as int, r as int);
            if q > i64::MAX {
                // The one overflowing quotient wraps to itself.
                Ok(i64::MIN)
            } else {
                Ok(q as i64)
            }
        },
        BinOp::Rem => if r == 0 {
            Err(EvalError::ModuloByZero)
        } else {
            Ok(spec_trunc_rem(l as int, r as int) as i64)
        },
        BinOp::BitAnd => Ok(l & r),
        BinOp::BitOr => Ok(l | r),
        BinOp::BitXor => Ok(l ^ r),
        BinOp::BitClear => Ok(l & !r),
        BinOp::Shl => Ok(vstd::wrapping::i64_specs::wrapping_shl(l, spec_shift_amount(r))),
        BinOp::Shr => Ok(vstd::wrapping::i64_specs::wrapping_shr(l, spec_shift_amount(r))),
    }
}

/// What evaluation yields on an expression: a value, or the hard error
/// of the leftmost failing sub-expression. Both evaluation modes are
/// held to this one function.
pub open spec fn spec_eval(e: Expression) -> Result<Value, EvalError>
    decreases e,
{
    match e.inner {
        ExprKind::Int(n) => Ok(Value::Int(n)),
        ExprKind::Neg(s) => match spec_eval(*s) {
            Ok(v) => Ok(Value::Int(spec_neg(v->Int_0))),
            Err(er) => Err(er),
        },
        ExprKind::Paren(s) => spec_eval(*s),
        ExprKind::Binary(op, a, b) => match spec_eval(*a) {
            Err(er) => Err(er),
            Ok(x) => match spec_eval(*b) {
                Err(er) => Err(er),
                Ok(y) => match spec_binop(op, x->Int_0, y->Int_0) {
                    Ok(v) => Ok(Value::Int(v)),
                    Err(er) => Err(er),
                },
            },
        },
    }
}

/// Truncated division of an in-range dividend never falls below the
/// value type's minimum; only `MIN / -1` exceeds its maximum.
proof fn lemma_trunc_div_in_range(x: int, d: int)
    requires
        i64::MIN <= x <= i64::MAX,
        i64::MIN <= d <= i64::MAX,
        d != 0,
    ensures
        spec_trunc_div(x, d) >= i64::MIN,
{
    if x > 0 && d > 0 {
        lemma_div_pos_is_pos(x, d);
    } else if x < 0 && d < 0 {
        lemma_div_pos_is_pos(x * -1, d * -1);
    } else if x < 0 && d > 0 {
        lemma_div_nonincreasing(x * -1, d);
    } else if x > 0 && d < 0 {
        lemma_div_nonincreasing(x, d * -1);
    }
}

/// Applies one binary operator to two already-reduced operands: the
/// pure operator-semantics core both evaluators call.
pub fn eval_binop(op: BinOp, l: i64, r: i64) -> (res: Result<Value, EvalError>)
    ensures
        res == match spec_binop(op, l, r) {
            Ok(v) => Ok::<Value, EvalError>(Value::Int(v)),
            Err(er) => Err::<Value, EvalError>(er),
        },
{
    match op {
        BinOp::Add => Ok(Value::Int(l.wrapping_add(r))),
        BinOp::Sub => Ok(Value::Int(l.wrapping_sub(r))),
        BinOp::Mul => Ok(Value::Int(l.wrapping_mul(r))),
        BinOp::Div => {
            if r == 0 {
                Err(EvalError::DivisionByZero)
            } else {
                proof {
                    lemma_trunc_div_in_range(l as int, r as int);
                }
                match l.checked_div(r) {
                    Some(q) => Ok(Value::Int(q)),
                    None => Ok(Value::Int(i64::MIN)),
                }
            }
        },
        BinOp::Rem => {
            if r == 0 {
                Err(EvalError::ModuloByZero)
            } else {
                match l.checked_rem(r) {
                    Some(q) => Ok(Value::Int(q)),
                    None => Ok(Value::Int(0)),
                }
            }
        },
        BinOp::BitAnd => Ok(Value::Int(l & r)),
        BinOp::BitOr => Ok(Value::Int(l | r)),
        BinOp::BitXor => Ok(Value::Int(l ^ r)),
        BinOp::BitClear => Ok(Value::Int(l & !r)),
        BinOp::Shl => {
            let sh: u32 = ((r as u64) % 64) as u32;
            Ok(Value::Int(l.wrapping_shl(sh)))
        },
        BinOp::Shr => {
            let sh: u32 = ((r as u64) % 64) as u32;
            Ok(Value::Int(l.wrapping_shr(sh)))
        },
    }
}

/// What a static evaluation attempt yields: the shared evaluation
/// semantics, with hard errors marked as such. No node kind of the
/// current expression grammar needs context, so the needs-context
/// signal never appears in the result.
pub open spec fn spec_static_eval(e: Expression) -> Result<Value, StaticFailure> {
    match spec_eval(e) {
        Ok(v) => Ok(v),
        Err(er) => Err(StaticFailure::Hard(er)),
    }
}

/// Context-free reduction of an expression to a value, used for
/// constant folding: no external state is consulted.
pub fn try_static_eval(e: &Expression) -> (res: Result<Value, StaticFailure>)
    ensures
        res == spec_static_eval(*e),
    decreases *e,
{
    match &e.inner {
        ExprKind::Int(n) => Ok(Value::Int(*n)),
        ExprKind::Neg(s) => match try_static_eval(s) {
            Ok(v) => {
                let Value::Int(x) = v;
                Ok(Value::Int((0i64).wrapping_sub(x)))
            },
            Err(f) => Err(f),
        },
        ExprKind::Paren(s) => try_static_eval(s),
        ExprKind::Binary(op, a, b) => {
            let x = match try_static_eval(a) {
                Ok(Value::Int(x)) => x,
                Err(f) => {
                    return Err(f);
                },
            };
            let y = match try_static_eval(b) {
                Ok(Value::Int(y)) => y,
                Err(f) => {
                    return Err(f);
                },
            };
            match eval_binop(*op, x, y) {
                Ok(v) => Ok(v),
                Err(er) => Err(StaticFailure::Hard(er)),
            }
        },
    }
}

/// The shared state the runtime evaluator may consult: a capability
/// mapping identifiers to values, passed by reference into every
/// runtime evaluation call. Its view is the mapping it holds, later
/// bindings shadowing earlier ones.
pub struct EvaluationContext {
    entries: Vec<(Name, Value)>,
}

/// The mapping a sequence of bindings stands for, later entries
/// shadowing earlier ones with the same identifier.
pub open spec fn spec_bindings(entries: Seq<(Name, Value)>) -> Map<Seq<char>, Value>
    decreases entries.len(),
{
    if entries.len() == 0 {
        Map::empty()
    } else {
        spec_bindings(entries.drop_last()).insert(entries.last().0@, entries.last().1)
    }
}

proof fn lemma_bindings_absent_suffix(entries: Seq<(Name, Value)>, n: Seq<char>, i: int)
    requires
        0 <= i <= entries.len(),
        forall|j: int| i <= j < entries.len() ==> entries[j].0@ != n,
    ensures
        spec_bindings(entries).contains_key(n) == spec_bindings(entries.take(i)).contains_key(n),
        spec_bindings(entries).contains_key(n) ==> spec_bindings(entries)[n] == spec_bindings(
            entries.take(i),
        )[n],
    decreases entries.len() - i,
{
    if i < entries.len() {
        lemma_bindings_absent_suffix(entries, n, i + 1);
        assert(entries.take(i + 1).drop_last() =~= entries.take(i));
        assert(entries.take(i + 1).last() == entries[i]);
    } else {
        assert(entries.take(i) =~= entries);
    }
}

impl View for EvaluationContext {
    type V = Map<Seq<char>, Value>;

    closed spec fn view(&self) -> Map<Seq<char>, Value> {
        spec_bindings(self.entries@)
    }
}

impl EvaluationContext {
    /// An empty context: nothing resolves.
    pub fn new() -> (res: EvaluationContext)
        ensures
            res@ == Map::<Seq<char>, Value>::empty(),
    {
        EvaluationContext { entries: Vec::new() }
    }

    /// Publishes a binding; a later binding shadows an earlier one for
    /// the same identifier.
    pub fn bind(&mut self, name: Name, value: Value)
        ensures
            final(self)@ == old(self)@.insert(name@, value),
    {
        let ghost old_entries = self.entries@;
        self.entries.push((name, value));
        proof {
            assert(self.entries@.drop_last() =~= old_entries);
        }
    }

    /// Resolves an identifier to the value it is bound to, if any: the
    /// single-step acquisition the runtime evaluator suspends on.
    pub fn resolve(&self, name: &str) -> (res: Option<Value>)
        ensures
            match res {
                Some(v) => self@.contains_key(name@) && v == self@[name@],
                None => !self@.contains_key(name@),
            },
    {
        let ghost entries = self.entries@;
        let mut i: usize = self.entries.len();
        while i > 0
            invariant
                i <= entries.len(),
                self.entries@ == entries,
                forall|j: int| i <= j < entries.len() ==> entries[j].0@ != name@,
            decreases i,
        {
            i = i - 1;
            if self.entries[i].0.eq_str(name) {
                proof {
                    lemma_bindings_absent_suffix(entries, name@, i + 1);
                    assert(entries.take(i + 1).drop_last() =~= entries.take(i as int));
                    assert(entries.take(i + 1).last() == entries[i as int]);
                }
                return Some(self.entries[i].1);
            }
        }
        proof {
            lemma_bindings_absent_suffix(entries, name@, 0);
            assert(entries.take(0) =~= Seq::<(Name, Value)>::empty());
        }
        None
    }
}

impl Expression {
    /// Context-bound reduction of the expression: identical operator
    /// semantics to the static evaluator, so the two agree whenever
    /// the static evaluator succeeds. The context is the capability
    /// future context-dependent node kinds will resolve through.
    pub fn evaluate(&self, context: &EvaluationContext) -> (res: Result<Value, EvalError>)
        ensures
            res == spec_eval(*self),
        decreases *self,
    {
        match &self.inner {
            ExprKind::Int(n) => Ok(Value::Int(*n)),
            ExprKind::Neg(s) => match s.evaluate(context) {
                Ok(v) => {
                    let Value::Int(x) = v;
                    Ok(Value::Int((0i64).wrapping_sub(x)))
                },
                Err(er) => Err(er),
            },
            ExprKind::Paren(s) => s.evaluate(context),
            ExprKind::Binary(op, a, b) => {
                let x = match a.evaluate(context) {
                    Ok(Value::Int(x)) => x,
                    Err(er) => {
                        return Err(er);
                    },
                };
                let y = match b.evaluate(context) {
                    Ok(Value::Int(y)) => y,
                    Err(er) => {
                        return Err(er);
                    },
                };
                eval_binop(*op, x, y)
            },
        }
    }
}

} // verus!

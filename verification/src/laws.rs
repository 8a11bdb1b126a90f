//! The general laws the library promises, stated and proved once, over
//! the same spec functions the executable contracts use.

use crate::errors::EvalError;
use crate::errors::StaticFailure;
use crate::eval::spec_eval;
use crate::eval::spec_static_eval;
use crate::eval::Value;
use crate::expr::BinOp;
use crate::expr::ExprKind;
use crate::expr::Expression;
use crate::module::spec_child_error;
use crate::module::spec_func_view;
use crate::module::spec_function_table;
use crate::module::spec_imports_from;
use crate::module::spec_module_error;
use crate::module::spec_module_ok;
use crate::module::spec_package_from;
use crate::module::spec_table_upto;
use crate::module::FunctionView;
use crate::module::SourceModule;
use crate::rules::ParseNode;
use crate::rules::Rule;
use vstd::prelude::*;

verus! {

/// Round-trip shape preservation: a module the lowering entry points
/// return carries exactly the package name the input declares; since
/// those entry points report an error only when `spec_module_error`
/// names one, lowering succeeds on every well-formed module node.
pub proof fn lemma_round_trip_package(n: ParseNode, m: SourceModule)
    requires
        spec_module_error(n) is None,
        spec_module_ok(m, n),
    ensures
        spec_package_from(n.children@, 0) == Some(m@.package),
{
}

/// Import ordering: the import list of a lowered module holds the
/// import paths of the input's children in exactly their source order.
pub proof fn lemma_import_order(n: ParseNode, m: SourceModule)
    requires
        spec_module_error(n) is None,
        spec_module_ok(m, n),
    ensures
        m@.imports == spec_imports_from(n.children@, 0),
{
}

/// Function table uniqueness: entries whose name is absent from a
/// suffix of the declarations do not affect what that name resolves
/// to, so the table keeps exactly one entry per name — the last
/// declaration that carries it.
pub proof fn lemma_function_table_last_wins(fs: Seq<FunctionView>, i: int)
    requires
        0 <= i < fs.len(),
        forall|j: int| i < j < fs.len() ==> fs[j].name != fs[i].name,
    ensures
        spec_function_table(fs).contains_key(fs[i].name),
        spec_function_table(fs)[fs[i].name] == fs[i],
    decreases fs.len(),
{
    if i == fs.len() - 1 {
    } else {
        lemma_function_table_last_wins(fs.drop_last(), i);
        assert(fs.drop_last()[i] == fs[i]);
    }
}

/// Function table uniqueness at the lowering level: a well-formed
/// function declaration that no later declaration shadows is what its
/// name resolves to in the lowered module's table.
pub proof fn lemma_table_upto_last_wins(cs: Seq<ParseNode>, i: int, upto: int)
    requires
        0 <= i < upto <= cs.len(),
        cs[i].rule == Rule::Func,
        spec_child_error(cs[i]) is None,
        forall|j: int|
            i < j < upto ==> !(cs[j].rule == Rule::Func && spec_child_error(cs[j]) is None
                && spec_func_view(cs[j]).name == spec_func_view(cs[i]).name),
    ensures
        spec_table_upto(cs, upto).contains_key(spec_func_view(cs[i]).name),
        spec_table_upto(cs, upto)[spec_func_view(cs[i]).name] == spec_func_view(cs[i]),
    decreases upto,
{
    if upto > i + 1 {
        lemma_table_upto_last_wins(cs, i, upto - 1);
    }
}

/// Cross-mode equivalence: whenever the static evaluator succeeds with
/// a value, the runtime evaluator owes the same value, under any
/// context — both are held to the one shared evaluation function.
pub proof fn lemma_cross_mode_equivalence(e: Expression, v: Value)
    requires
        spec_static_eval(e) == Ok::<Value, StaticFailure>(v),
    ensures
        spec_eval(e) == Ok::<Value, EvalError>(v),
{
}

/// No node kind of the current expression grammar needs context, so a
/// static evaluation never reports the needs-context signal.
pub proof fn lemma_static_never_needs_context(e: Expression)
    ensures
        spec_static_eval(e) != Err::<Value, StaticFailure>(StaticFailure::NeedsContext),
{
}

/// Division by zero is a hard error in either evaluation mode and
/// never produces a value.
pub proof fn lemma_division_by_zero(e: Expression, l: Expression, r: Expression)
    requires
        e.inner == ExprKind::Binary(BinOp::Div, Box::new(l), Box::new(r)),
        spec_eval(l) is Ok,
        spec_eval(r) == Ok::<Value, EvalError>(Value::Int(0)),
    ensures
        spec_eval(e) == Err::<Value, EvalError>(EvalError::DivisionByZero),
        spec_static_eval(e) == Err::<Value, StaticFailure>(
            StaticFailure::Hard(EvalError::DivisionByZero),
        ),
{
}

/// Modulo by zero is a hard error in either evaluation mode and never
/// produces a value.
pub proof fn lemma_modulo_by_zero(e: Expression, l: Expression, r: Expression)
    requires
        e.inner == ExprKind::Binary(BinOp::Rem, Box::new(l), Box::new(r)),
        spec_eval(l) is Ok,
        spec_eval(r) == Ok::<Value, EvalError>(Value::Int(0)),
    ensures
        spec_eval(e) == Err::<Value, EvalError>(EvalError::ModuloByZero),
        spec_static_eval(e) == Err::<Value, StaticFailure>(
            StaticFailure::Hard(EvalError::ModuloByZero),
        ),
{
}

} // verus!

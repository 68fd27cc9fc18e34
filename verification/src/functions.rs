//! The built-in functions, grouped as the language groups them, and the
//! dispatch from a registry entry to the built-in it names.
use vstd::prelude::*;

pub mod aggregation;
pub mod context;
pub mod logical;
pub mod math;
pub mod table;
pub mod text;

use crate::ast::Expression;
use crate::ast::esheight;
use crate::evaluator::EvalOut;
use crate::evaluator::SessView;
use crate::function_registry::Function;

verus! {

/// What calling the named built-in on unevaluated argument expressions
/// yields.
pub open spec fn spec_call(
    fr: Map<Seq<char>, Function>,
    s: SessView,
    f: Function,
    args: Seq<Expression>,
) -> EvalOut
    decreases esheight(args), 4int, 0int, 0int,
{
    match f {
        Function::Table => table::spec_table(fr, s, args),
        Function::First => table::spec_first(fr, s, args),
        Function::Last => table::spec_last(fr, s, args),
        Function::Index => table::spec_index(fr, s, args),
        Function::Filter => table::spec_filter(fr, s, args),
        Function::SetVar => context::spec_set(fr, s, args),
        Function::If => logical::spec_if(fr, s, args),
        Function::And => logical::spec_and(fr, s, args),
        Function::Or => logical::spec_or(fr, s, args),
        Function::Not => logical::spec_not(fr, s, args),
        Function::Abs => math::spec_abs(fr, s, args),
        Function::Sqrt => math::spec_sqrt(fr, s, args),
        Function::Left => text::spec_left(fr, s, args),
        Function::Mid => text::spec_mid(fr, s, args),
        Function::Right => text::spec_right(fr, s, args),
        Function::Upper => text::spec_upper(fr, s, args),
        Function::Lower => text::spec_lower(fr, s, args),
        Function::Average => aggregation::spec_average(fr, s, args),
        Function::Sum => aggregation::spec_sum(fr, s, args),
        Function::Min => aggregation::spec_min(fr, s, args),
        Function::Max => aggregation::spec_max(fr, s, args),
    }
}

} // verus!

//! The math built-ins: `Abs`, `Sqrt`.
use vstd::prelude::*;

use crate::ast::Expression;
use crate::ast::esheight;
use crate::ast::lemma_esheight_index;
use crate::evaluator::ErrV;
use crate::evaluator::EvalOut;
use crate::evaluator::EvaluationError;
use crate::evaluator::ExpressionEvaluator;
use crate::evaluator::SessView;
use crate::evaluator::Session;
use crate::evaluator::out_matches;
use crate::evaluator::spec_eval;
use crate::function_registry::Function;
use crate::models::DataValue;
use crate::models::Val;
use crate::numeric::num_abs;
use crate::numeric::num_sqrt;

verus! {

broadcast use vstd::std_specs::vec::group_vec_axioms, vstd::seq::group_seq_axioms;

/// What `Abs(x)` yields: the absolute value of a number argument.
pub open spec fn spec_abs(fr: Map<Seq<char>, Function>, s: SessView, args: Seq<Expression>) -> EvalOut
    decreases esheight(args), 3int, 0int, 0int,
    via spec_abs_dec
{
    if args.len() != 1 {
        (s, Result::Err(ErrV::InvalidArgumentCount("expected exactly 1 argument"@)))
    } else {
        let (s1, r) = spec_eval(fr, s, args[0]);
        match r {
            Result::Ok(Val::Num(n)) => (s1, Result::Ok(Val::Num(num_abs(n)))),
            Result::Ok(_) => (s1, Result::Err(ErrV::InvalidArgument("expected a number"@))),
            Result::Err(er) => (s1, Result::Err(er)),
        }
    }
}

#[via_fn]
proof fn spec_abs_dec(fr: Map<Seq<char>, Function>, s: SessView, args: Seq<Expression>) {
    if args.len() == 1 {
        lemma_esheight_index(args, 0);
    }
}

/// What `Sqrt(x)` yields: the correctly rounded square root of a number
/// argument; a negative argument gives NaN.
pub open spec fn spec_sqrt(fr: Map<Seq<char>, Function>, s: SessView, args: Seq<Expression>) -> EvalOut
    decreases esheight(args), 3int, 0int, 0int,
    via spec_sqrt_dec
{
    if args.len() != 1 {
        (s, Result::Err(ErrV::InvalidArgumentCount("expected exactly 1 argument"@)))
    } else {
        let (s1, r) = spec_eval(fr, s, args[0]);
        match r {
            Result::Ok(Val::Num(n)) => (s1, Result::Ok(Val::Num(num_sqrt(n)))),
            Result::Ok(_) => (s1, Result::Err(ErrV::InvalidArgument("expected a number"@))),
            Result::Err(er) => (s1, Result::Err(er)),
        }
    }
}

#[via_fn]
proof fn spec_sqrt_dec(fr: Map<Seq<char>, Function>, s: SessView, args: Seq<Expression>) {
    if args.len() == 1 {
        lemma_esheight_index(args, 0);
    }
}

/// The `Abs` built-in.
pub struct Abs;

impl Abs {
    /// The callable itself; it carries no state.
    pub fn new() -> (r: Abs) {
        Abs
    }

    /// The absolute value of a number.
    pub fn call(
        &self,
        evaluator: &ExpressionEvaluator,
        context: &mut Session,
        args: &Vec<Expression>,
    ) -> (r: Result<DataValue, EvaluationError>)
        ensures
            out_matches(final(context)@, r, spec_abs(evaluator@, old(context)@, args@)),
        decreases esheight(args@), 2int,
    {
        if args.len() != 1 {
            return Err(
                EvaluationError::InvalidArgumentCount("expected exactly 1 argument".to_owned()),
            );
        }
        proof {
            lemma_esheight_index(args@, 0);
        }
        match evaluator.evaluate_expression(context, &args[0]) {
            Ok(v) => match v {
                DataValue::Number(n) => Ok(DataValue::Number(crate::numeric::ieee_abs(n))),
                _ => Err(EvaluationError::InvalidArgument("expected a number".to_owned())),
            },
            Err(e) => Err(e),
        }
    }
}

/// The `Sqrt` built-in.
pub struct Sqrt;

impl Sqrt {
    /// The callable itself; it carries no state.
    pub fn new() -> (r: Sqrt) {
        Sqrt
    }

    /// The non-negative square root of a number; NaN for a negative one.
    pub fn call(
        &self,
        evaluator: &ExpressionEvaluator,
        context: &mut Session,
        args: &Vec<Expression>,
    ) -> (r: Result<DataValue, EvaluationError>)
        ensures
            out_matches(final(context)@, r, spec_sqrt(evaluator@, old(context)@, args@)),
        decreases esheight(args@), 2int,
    {
        if args.len() != 1 {
            return Err(
                EvaluationError::InvalidArgumentCount("expected exactly 1 argument".to_owned()),
            );
        }
        proof {
            lemma_esheight_index(args@, 0);
        }
        match evaluator.evaluate_expression(context, &args[0]) {
            Ok(v) => match v {
                DataValue::Number(n) => Ok(DataValue::Number(crate::numeric::ieee_sqrt(n))),
                _ => Err(EvaluationError::InvalidArgument("expected a number".to_owned())),
            },
            Err(e) => Err(e),
        }
    }
}

} // verus!

//! The context-mutating built-in: `Set`.
use vstd::prelude::*;

use crate::ast::Expression;
use crate::ast::UnaryExpression;
use crate::ast::esheight;
use crate::ast::lemma_esheight_index;
use crate::evaluator::ErrV;
use crate::evaluator::EvalOut;
use crate::evaluator::EvaluationError;
use crate::evaluator::ExpressionEvaluator;
use crate::evaluator::SessView;
use crate::evaluator::Session;
use crate::evaluator::out_matches;
use crate::evaluator::spec_eval;
use crate::function_registry::Function;
use crate::models::DataValue;
use crate::models::Val;

verus! {

broadcast use vstd::std_specs::vec::group_vec_axioms, vstd::seq::group_seq_axioms;

/// What `Set(ident, expr)` yields: the first argument must be an
/// identifier form; the second is evaluated and bound to that name in the
/// globals; the result is Blank.
pub open spec fn spec_set(fr: Map<Seq<char>, Function>, s: SessView, args: Seq<Expression>) -> EvalOut
    decreases esheight(args), 3int, 0int, 0int,
    via spec_set_dec
{
    if args.len() != 2 {
        (s, Result::Err(ErrV::InvalidArgumentCount("expected exactly 2 arguments"@)))
    } else {
        match args[0] {
            Expression::UnaryExpression(UnaryExpression::Identifier(name)) => {
                let (s1, r) = spec_eval(fr, s, args[1]);
                match r {
                    Result::Ok(v) => (
                        SessView { globals: s1.globals.insert(name@, v), row: s1.row },
                        Result::Ok(Val::Blank),
                    ),
                    Result::Err(er) => (s1, Result::Err(er)),
                }
            },
            _ => (s, Result::Err(ErrV::InvalidArgument("expected an identifier"@))),
        }
    }
}

#[via_fn]
proof fn spec_set_dec(fr: Map<Seq<char>, Function>, s: SessView, args: Seq<Expression>) {
    if args.len() == 2 {
        lemma_esheight_index(args, 1);
    }
}

/// The `Set` built-in.
pub struct SetVar;

impl SetVar {
    /// The callable itself; it carries no state.
    pub fn new() -> (r: SetVar) {
        SetVar
    }

    /// Binds an identifier to the value of an expression.
    pub fn call(
        &self,
        evaluator: &ExpressionEvaluator,
        context: &mut Session,
        args: &Vec<Expression>,
    ) -> (r: Result<DataValue, EvaluationError>)
        ensures
            out_matches(final(context)@, r, spec_set(evaluator@, old(context)@, args@)),
        decreases esheight(args@), 2int,
    {
        if args.len() != 2 {
            return Err(
                EvaluationError::InvalidArgumentCount("expected exactly 2 arguments".to_owned()),
            );
        }
        let name: String = match &args[0] {
            Expression::UnaryExpression(u) => match u {
                UnaryExpression::Identifier(n) => n.clone(),
                _ => {
                    return Err(
                        EvaluationError::InvalidArgument("expected an identifier".to_owned()),
                    );
                },
            },
            _ => {
                return Err(EvaluationError::InvalidArgument("expected an identifier".to_owned()));
            },
        };
        proof {
            lemma_esheight_index(args@, 1);
        }
        match evaluator.evaluate_expression(context, &args[1]) {
            Ok(v) => {
                context.set_variable(name.as_str(), v);
                Ok(DataValue::Blank)
            },
            Err(e) => Err(e),
        }
    }
}

} // verus!

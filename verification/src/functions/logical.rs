//! The logical built-ins: `If`, `And`, `Or`, `Not`.
use vstd::prelude::*;

use crate::ast::Expression;
use crate::ast::esheight;
use crate::ast::lemma_esheight_index;
use crate::evaluator::ErrV;
use crate::evaluator::EvalOut;
use crate::evaluator::EvaluationError;
use crate::evaluator::ExpressionEvaluator;
use crate::evaluator::SessView;
use crate::evaluator::Session;
use crate::evaluator::out_matches;
use crate::evaluator::spec_eval;
use crate::function_registry::Function;
use crate::models::DataValue;
use crate::models::Val;

verus! {

broadcast use vstd::std_specs::vec::group_vec_axioms, vstd::seq::group_seq_axioms;

/// What `If(cond, then[, else])` yields: the condition must be a boolean;
/// the chosen branch is evaluated, Blank standing in for a missing else.
pub open spec fn spec_if(fr: Map<Seq<char>, Function>, s: SessView, args: Seq<Expression>) -> EvalOut
    decreases esheight(args), 3int, 0int, 0int,
    via spec_if_dec
{
    if args.len() < 2 {
        (s, Result::Err(ErrV::InvalidArgumentCount("expected at least 2 arguments"@)))
    } else {
        let (s1, r) = spec_eval(fr, s, args[0]);
        match r {
            Result::Ok(Val::Bool(b)) => if b {
                spec_eval(fr, s1, args[1])
            } else if args.len() == 3 {
                spec_eval(fr, s1, args[2])
            } else {
                (s1, Result::Ok(Val::Blank))
            },
            Result::Ok(_) => (s1, Result::Err(ErrV::InvalidArgument("expected a boolean"@))),
            Result::Err(er) => (s1, Result::Err(er)),
        }
    }
}

#[via_fn]
proof fn spec_if_dec(fr: Map<Seq<char>, Function>, s: SessView, args: Seq<Expression>) {
    if args.len() >= 2 {
        lemma_esheight_index(args, 0);
        lemma_esheight_index(args, 1);
        if args.len() == 3 {
            lemma_esheight_index(args, 2);
        }
    }
}

/// Evaluates the arguments of `And` from place `i` on: true when all are
/// true, false at the first false (the rest are not evaluated), an error
/// on any non-boolean.
pub open spec fn spec_and_from(
    fr: Map<Seq<char>, Function>,
    s: SessView,
    args: Seq<Expression>,
    i: int,
) -> EvalOut
    decreases esheight(args), 2int, args.len() - i, 0int,
    when 0 <= i <= args.len()
    via spec_and_from_dec
{
    if i >= args.len() {
        (s, Result::Ok(Val::Bool(true)))
    } else {
        let (s1, r) = spec_eval(fr, s, args[i]);
        match r {
            Result::Ok(Val::Bool(b)) => if !b {
                (s1, Result::Ok(Val::Bool(false)))
            } else {
                spec_and_from(fr, s1, args, i + 1)
            },
            Result::Ok(_) => (s1, Result::Err(ErrV::InvalidArgument("expected a boolean"@))),
            Result::Err(er) => (s1, Result::Err(er)),
        }
    }
}

#[via_fn]
proof fn spec_and_from_dec(fr: Map<Seq<char>, Function>, s: SessView, args: Seq<Expression>, i: int) {
    if 0 <= i < args.len() {
        lemma_esheight_index(args, i);
    }
}

/// What the variadic `And(a, b, ...)` yields.
pub open spec fn spec_and(fr: Map<Seq<char>, Function>, s: SessView, args: Seq<Expression>) -> EvalOut
    decreases esheight(args), 3int, 0int, 0int,
{
    if args.len() < 2 {
        (s, Result::Err(ErrV::InvalidArgumentCount("expected at least 2 arguments"@)))
    } else {
        spec_and_from(fr, s, args, 0)
    }
}

/// Evaluates the arguments of `Or` from place `i` on: false when all are
/// false, true at the first true (the rest are not evaluated), an error
/// on any non-boolean.
pub open spec fn spec_or_from(
    fr: Map<Seq<char>, Function>,
    s: SessView,
    args: Seq<Expression>,
    i: int,
) -> EvalOut
    decreases esheight(args), 2int, args.len() - i, 0int,
    when 0 <= i <= args.len()
    via spec_or_from_dec
{
    if i >= args.len() {
        (s, Result::Ok(Val::Bool(false)))
    } else {
        let (s1, r) = spec_eval(fr, s, args[i]);
        match r {
            Result::Ok(Val::Bool(b)) => if b {
                (s1, Result::Ok(Val::Bool(true)))
            } else {
                spec_or_from(fr, s1, args, i + 1)
            },
            Result::Ok(_) => (s1, Result::Err(ErrV::InvalidArgument("expected a boolean"@))),
            Result::Err(er) => (s1, Result::Err(er)),
        }
    }
}

#[via_fn]
proof fn spec_or_from_dec(fr: Map<Seq<char>, Function>, s: SessView, args: Seq<Expression>, i: int) {
    if 0 <= i < args.len() {
        lemma_esheight_index(args, i);
    }
}

/// What the variadic `Or(a, b, ...)` yields.
pub open spec fn spec_or(fr: Map<Seq<char>, Function>, s: SessView, args: Seq<Expression>) -> EvalOut
    decreases esheight(args), 3int, 0int, 0int,
{
    if args.len() < 2 {
        (s, Result::Err(ErrV::InvalidArgumentCount("expected at least 2 arguments"@)))
    } else {
        spec_or_from(fr, s, args, 0)
    }
}

/// What `Not(x)` yields: the negation of a boolean argument.
pub open spec fn spec_not(fr: Map<Seq<char>, Function>, s: SessView, args: Seq<Expression>) -> EvalOut
    decreases esheight(args), 3int, 0int, 0int,
    via spec_not_dec
{
    if args.len() != 1 {
        (s, Result::Err(ErrV::InvalidArgumentCount("expected exactly 1 argument"@)))
    } else {
        let (s1, r) = spec_eval(fr, s, args[0]);
        match r {
            Result::Ok(Val::Bool(b)) => (s1, Result::Ok(Val::Bool(!b))),
            Result::Ok(_) => (s1, Result::Err(ErrV::InvalidArgument("expected a boolean"@))),
            Result::Err(er) => (s1, Result::Err(er)),
        }
    }
}

#[via_fn]
proof fn spec_not_dec(fr: Map<Seq<char>, Function>, s: SessView, args: Seq<Expression>) {
    if args.len() == 1 {
        lemma_esheight_index(args, 0);
    }
}

/// The `If` built-in.
pub struct If;

impl If {
    /// The callable itself; it carries no state.
    pub fn new() -> (r: If) {
        If
    }

    /// Chooses a branch by a boolean condition.
    #[verifier::loop_isolation(false)]
    pub fn call(
        &self,
        evaluator: &ExpressionEvaluator,
        context: &mut Session,
        args: &Vec<Expression>,
    ) -> (r: Result<DataValue, EvaluationError>)
        ensures
            out_matches(final(context)@, r, spec_if(evaluator@, old(context)@, args@)),
        decreases esheight(args@), 2int,
    {
        if args.len() < 2 {
            return Err(
                EvaluationError::InvalidArgumentCount("expected at least 2 arguments".to_owned()),
            );
        }
        proof {
            lemma_esheight_index(args@, 0);
            lemma_esheight_index(args@, 1);
            if args@.len() == 3 {
                lemma_esheight_index(args@, 2);
            }
        }
        let cond = match evaluator.evaluate_expression(context, &args[0]) {
            Ok(v) => match v {
                DataValue::Boolean(b) => b,
                _ => {
                    return Err(EvaluationError::InvalidArgument("expected a boolean".to_owned()));
                },
            },
            Err(e) => {
                return Err(e);
            },
        };
        if cond {
            return evaluator.evaluate_expression(context, &args[1]);
        }
        if args.len() == 3 {
            return evaluator.evaluate_expression(context, &args[2]);
        }
        Ok(DataValue::Blank)
    }
}

/// The `And` built-in.
pub struct And;

impl And {
    /// The callable itself; it carries no state.
    pub fn new() -> (r: And) {
        And
    }

    /// True when every argument is true; stops at the first false.
    #[verifier::loop_isolation(false)]
    pub fn call(
        &self,
        evaluator: &ExpressionEvaluator,
        context: &mut Session,
        args: &Vec<Expression>,
    ) -> (r: Result<DataValue, EvaluationError>)
        ensures
            out_matches(final(context)@, r, spec_and(evaluator@, old(context)@, args@)),
        decreases esheight(args@), 2int,
    {
        if args.len() < 2 {
            return Err(
                EvaluationError::InvalidArgumentCount("expected at least 2 arguments".to_owned()),
            );
        }
        let mut i: usize = 0;
        while i < args.len()
            invariant
                0 <= i <= args@.len(),
                spec_and_from(evaluator@, old(context)@, args@, 0) == spec_and_from(
                    evaluator@,
                    context@,
                    args@,
                    i as int,
                ),
            decreases args@.len() - i,
        {
            proof {
                lemma_esheight_index(args@, i as int);
            }
            match evaluator.evaluate_expression(context, &args[i]) {
                Ok(v) => match v {
                    DataValue::Boolean(b) => {
                        if !b {
                            return Ok(DataValue::Boolean(false));
                        }
                    },
                    _ => {
                        return Err(
                            EvaluationError::InvalidArgument("expected a boolean".to_owned()),
                        );
                    },
                },
                Err(e) => {
                    return Err(e);
                },
            }
            i = i + 1;
        }
        Ok(DataValue::Boolean(true))
    }
}

/// The `Or` built-in.
pub struct Or;

impl Or {
    /// The callable itself; it carries no state.
    pub fn new() -> (r: Or) {
        Or
    }

    /// True when any argument is true; stops at the first true.
    #[verifier::loop_isolation(false)]
    pub fn call(
        &self,
        evaluator: &ExpressionEvaluator,
        context: &mut Session,
        args: &Vec<Expression>,
    ) -> (r: Result<DataValue, EvaluationError>)
        ensures
            out_matches(final(context)@, r, spec_or(evaluator@, old(context)@, args@)),
        decreases esheight(args@), 2int,
    {
        if args.len() < 2 {
            return Err(
                EvaluationError::InvalidArgumentCount("expected at least 2 arguments".to_owned()),
            );
        }
        let mut i: usize = 0;
        while i < args.len()
            invariant
                0 <= i <= args@.len(),
                spec_or_from(evaluator@, old(context)@, args@, 0) == spec_or_from(
                    evaluator@,
                    context@,
                    args@,
                    i as int,
                ),
            decreases args@.len() - i,
        {
            proof {
                lemma_esheight_index(args@, i as int);
            }
            match evaluator.evaluate_expression(context, &args[i]) {
                Ok(v) => match v {
                    DataValue::Boolean(b) => {
                        if b {
                            return Ok(DataValue::Boolean(true));
                        }
                    },
                    _ => {
                        return Err(
                            EvaluationError::InvalidArgument("expected a boolean".to_owned()),
                        );
                    },
                },
                Err(e) => {
                    return Err(e);
                },
            }
            i = i + 1;
        }
        Ok(DataValue::Boolean(false))
    }
}

/// The `Not` built-in.
pub struct Not;

impl Not {
    /// The callable itself; it carries no state.
    pub fn new() -> (r: Not) {
        Not
    }

    /// Negates a boolean argument.
    #[verifier::loop_isolation(false)]
    pub fn call(
        &self,
        evaluator: &ExpressionEvaluator,
        context: &mut Session,
        args: &Vec<Expression>,
    ) -> (r: Result<DataValue, EvaluationError>)
        ensures
            out_matches(final(context)@, r, spec_not(evaluator@, old(context)@, args@)),
        decreases esheight(args@), 2int,
    {
        if args.len() != 1 {
            return Err(
                EvaluationError::InvalidArgumentCount("expected exactly 1 argument".to_owned()),
            );
        }
        proof {
            lemma_esheight_index(args@, 0);
        }
        match evaluator.evaluate_expression(context, &args[0]) {
            Ok(v) => match v {
                DataValue::Boolean(b) => Ok(DataValue::Boolean(!b)),
                _ => Err(EvaluationError::InvalidArgument("expected a boolean".to_owned())),
            },
            Err(e) => Err(e),
        }
    }
}

} // verus!

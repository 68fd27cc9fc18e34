//! The text built-ins: `Upper`, `Lower`, `Left`, `Right`, `Mid`.
use vstd::prelude::*;

use crate::ast::Expression;
use crate::ast::esheight;
use crate::ast::lemma_esheight_index;
use crate::evaluator::ErrV;
use crate::evaluator::EvalOut;
use crate::evaluator::EvaluationError;
use crate::evaluator::ExpressionEvaluator;
use crate::evaluator::SessView;
use crate::evaluator::Session;
use crate::evaluator::out_matches;
use crate::evaluator::spec_eval;
use crate::function_registry::Function;
use crate::models::DataValue;
use crate::models::Val;
use crate::numeric::num_trunc_usize;
use crate::textops::lower_of;
use crate::textops::upper_of;

verus! {

broadcast use vstd::std_specs::vec::group_vec_axioms, vstd::seq::group_seq_axioms;

/// What `Upper(s)` yields: the Unicode uppercasing of a text argument.
pub open spec fn spec_upper(fr: Map<Seq<char>, Function>, s: SessView, args: Seq<Expression>) -> EvalOut
    decreases esheight(args), 3int, 0int, 0int,
    via spec_upper_dec
{
    if args.len() != 1 {
        (s, Result::Err(ErrV::InvalidArgumentCount("expected exactly 1 argument"@)))
    } else {
        let (s1, r) = spec_eval(fr, s, args[0]);
        match r {
            Result::Ok(Val::Text(t)) => (s1, Result::Ok(Val::Text(upper_of(t)))),
            Result::Ok(_) => (s1, Result::Err(ErrV::InvalidArgument("expected text"@))),
            Result::Err(er) => (s1, Result::Err(er)),
        }
    }
}

#[via_fn]
proof fn spec_upper_dec(fr: Map<Seq<char>, Function>, s: SessView, args: Seq<Expression>) {
    if args.len() == 1 {
        lemma_esheight_index(args, 0);
    }
}

/// What `Lower(s)` yields: the Unicode lowercasing of a text argument.
pub open spec fn spec_lower(fr: Map<Seq<char>, Function>, s: SessView, args: Seq<Expression>) -> EvalOut
    decreases esheight(args), 3int, 0int, 0int,
    via spec_lower_dec
{
    if args.len() != 1 {
        (s, Result::Err(ErrV::InvalidArgumentCount("expected exactly 1 argument"@)))
    } else {
        let (s1, r) = spec_eval(fr, s, args[0]);
        match r {
            Result::Ok(Val::Text(t)) => (s1, Result::Ok(Val::Text(lower_of(t)))),
            Result::Ok(_) => (s1, Result::Err(ErrV::InvalidArgument("expected text"@))),
            Result::Err(er) => (s1, Result::Err(er)),
        }
    }
}

#[via_fn]
proof fn spec_lower_dec(fr: Map<Seq<char>, Function>, s: SessView, args: Seq<Expression>) {
    if args.len() == 1 {
        lemma_esheight_index(args, 0);
    }
}

/// The first `n` characters of `t`, or all of it when `n` reaches past
/// the end.
pub open spec fn take_chars(t: Seq<char>, n: usize) -> Seq<char> {
    if n >= t.len() {
        t
    } else {
        t.subrange(0, n as int)
    }
}

/// The last `n` characters of `t`, or all of it when `n` reaches past the
/// end.
pub open spec fn take_last_chars(t: Seq<char>, n: usize) -> Seq<char> {
    if n >= t.len() {
        t
    } else {
        t.subrange(t.len() - n, t.len() as int)
    }
}

/// The characters of `t` from the 1-based place `start` on, `count` of
/// them at most, clipped to the text.
pub open spec fn mid_chars(t: Seq<char>, start: usize, count: int) -> Seq<char> {
    let skip = if start >= 1 {
        start - 1
    } else {
        0
    };
    let lo = if skip > t.len() {
        t.len() as int
    } else {
        skip
    };
    let want = if count > t.len() - lo {
        t.len() - lo
    } else {
        count
    };
    let take = if want < 0 {
        0
    } else {
        want
    };
    t.subrange(lo, lo + take)
}

/// What `Left(s, n)` yields: the first `n` characters of a text.
pub open spec fn spec_left(fr: Map<Seq<char>, Function>, s: SessView, args: Seq<Expression>) -> EvalOut
    decreases esheight(args), 3int, 0int, 0int,
    via spec_left_dec
{
    if args.len() != 2 {
        (s, Result::Err(ErrV::InvalidArgumentCount("expected exactly 2 arguments"@)))
    } else {
        let (s1, r1) = spec_eval(fr, s, args[0]);
        match r1 {
            Result::Ok(Val::Text(t)) => {
                let (s2, r2) = spec_eval(fr, s1, args[1]);
                match r2 {
                    Result::Ok(Val::Num(n)) => (
                        s2,
                        Result::Ok(Val::Text(take_chars(t, num_trunc_usize(n)))),
                    ),
                    Result::Ok(_) => (s2, Result::Err(ErrV::InvalidArgument("expected a number"@))),
                    Result::Err(er) => (s2, Result::Err(er)),
                }
            },
            Result::Ok(_) => (s1, Result::Err(ErrV::InvalidArgument("expected text"@))),
            Result::Err(er) => (s1, Result::Err(er)),
        }
    }
}

#[via_fn]
proof fn spec_left_dec(fr: Map<Seq<char>, Function>, s: SessView, args: Seq<Expression>) {
    if args.len() == 2 {
        lemma_esheight_index(args, 0);
        lemma_esheight_index(args, 1);
    }
}

/// What `Right(s, n)` yields: the last `n` characters of a text.
pub open spec fn spec_right(fr: Map<Seq<char>, Function>, s: SessView, args: Seq<Expression>) -> EvalOut
    decreases esheight(args), 3int, 0int, 0int,
    via spec_right_dec
{
    if args.len() != 2 {
        (s, Result::Err(ErrV::InvalidArgumentCount("expected exactly 2 arguments"@)))
    } else {
        let (s1, r1) = spec_eval(fr, s, args[0]);
        match r1 {
            Result::Ok(Val::Text(t)) => {
                let (s2, r2) = spec_eval(fr, s1, args[1]);
                match r2 {
                    Result::Ok(Val::Num(n)) => (
                        s2,
                        Result::Ok(Val::Text(take_last_chars(t, num_trunc_usize(n)))),
                    ),
                    Result::Ok(_) => (s2, Result::Err(ErrV::InvalidArgument("expected a number"@))),
                    Result::Err(er) => (s2, Result::Err(er)),
                }
            },
            Result::Ok(_) => (s1, Result::Err(ErrV::InvalidArgument("expected text"@))),
            Result::Err(er) => (s1, Result::Err(er)),
        }
    }
}

#[via_fn]
proof fn spec_right_dec(fr: Map<Seq<char>, Function>, s: SessView, args: Seq<Expression>) {
    if args.len() == 2 {
        lemma_esheight_index(args, 0);
        lemma_esheight_index(args, 1);
    }
}

/// What `Mid(s, start[, count])` yields: `count` characters (to the end
/// when omitted) from the 1-based place `start`.
pub open spec fn spec_mid(fr: Map<Seq<char>, Function>, s: SessView, args: Seq<Expression>) -> EvalOut
    decreases esheight(args), 3int, 0int, 0int,
    via spec_mid_dec
{
    if args.len() < 2 {
        (s, Result::Err(ErrV::InvalidArgumentCount("expected at least 2 arguments"@)))
    } else {
        let (s1, r1) = spec_eval(fr, s, args[0]);
        match r1 {
            Result::Ok(Val::Text(t)) => {
                let (s2, r2) = spec_eval(fr, s1, args[1]);
                match r2 {
                    Result::Ok(Val::Num(n)) => {
                        let start = num_trunc_usize(n);
                        if args.len() == 3 {
                            let (s3, r3) = spec_eval(fr, s2, args[2]);
                            match r3 {
                                Result::Ok(Val::Num(c)) => (
                                    s3,
                                    Result::Ok(
                                        Val::Text(
                                            mid_chars(t, start, num_trunc_usize(c) as int),
                                        ),
                                    ),
                                ),
                                Result::Ok(_) => (
                                    s3,
                                    Result::Err(ErrV::InvalidArgument("expected a number"@)),
                                ),
                                Result::Err(er) => (s3, Result::Err(er)),
                            }
                        } else {
                            (s2, Result::Ok(Val::Text(mid_chars(t, start, t.len() as int))))
                        }
                    },
                    Result::Ok(_) => (s2, Result::Err(ErrV::InvalidArgument("expected a number"@))),
                    Result::Err(er) => (s2, Result::Err(er)),
                }
            },
            Result::Ok(_) => (s1, Result::Err(ErrV::InvalidArgument("expected text"@))),
            Result::Err(er) => (s1, Result::Err(er)),
        }
    }
}

#[via_fn]
proof fn spec_mid_dec(fr: Map<Seq<char>, Function>, s: SessView, args: Seq<Expression>) {
    if args.len() >= 2 {
        lemma_esheight_index(args, 0);
        lemma_esheight_index(args, 1);
        if args.len() == 3 {
            lemma_esheight_index(args, 2);
        }
    }
}

/// The `Upper` built-in.
pub struct Upper;

impl Upper {
    /// The callable itself; it carries no state.
    pub fn new() -> (r: Upper) {
        Upper
    }

    /// Uppercases a text.
    pub fn call(
        &self,
        evaluator: &ExpressionEvaluator,
        context: &mut Session,
        args: &Vec<Expression>,
    ) -> (r: Result<DataValue, EvaluationError>)
        ensures
            out_matches(final(context)@, r, spec_upper(evaluator@, old(context)@, args@)),
        decreases esheight(args@), 2int,
    {
        if args.len() != 1 {
            return Err(
                EvaluationError::InvalidArgumentCount("expected exactly 1 argument".to_owned()),
            );
        }
        proof {
            lemma_esheight_index(args@, 0);
        }
        match evaluator.evaluate_expression(context, &args[0]) {
            Ok(v) => match v {
                DataValue::Text(t) => Ok(DataValue::Text(crate::textops::text_upper(t.as_str()))),
                _ => Err(EvaluationError::InvalidArgument("expected text".to_owned())),
            },
            Err(e) => Err(e),
        }
    }
}

/// The `Lower` built-in.
pub struct Lower;

impl Lower {
    /// The callable itself; it carries no state.
    pub fn new() -> (r: Lower) {
        Lower
    }

    /// Lowercases a text.
    pub fn call(
        &self,
        evaluator: &ExpressionEvaluator,
        context: &mut Session,
        args: &Vec<Expression>,
    ) -> (r: Result<DataValue, EvaluationError>)
        ensures
            out_matches(final(context)@, r, spec_lower(evaluator@, old(context)@, args@)),
        decreases esheight(args@), 2int,
    {
        if args.len() != 1 {
            return Err(
                EvaluationError::InvalidArgumentCount("expected exactly 1 argument".to_owned()),
            );
        }
        proof {
            lemma_esheight_index(args@, 0);
        }
        match evaluator.evaluate_expression(context, &args[0]) {
            Ok(v) => match v {
                DataValue::Text(t) => Ok(DataValue::Text(crate::textops::text_lower(t.as_str()))),
                _ => Err(EvaluationError::InvalidArgument("expected text".to_owned())),
            },
            Err(e) => Err(e),
        }
    }
}

/// The `Left` built-in.
pub struct Left;

impl Left {
    /// The callable itself; it carries no state.
    pub fn new() -> (r: Left) {
        Left
    }

    /// The first `n` characters of a text.
    pub fn call(
        &self,
        evaluator: &ExpressionEvaluator,
        context: &mut Session,
        args: &Vec<Expression>,
    ) -> (r: Result<DataValue, EvaluationError>)
        ensures
            out_matches(final(context)@, r, spec_left(evaluator@, old(context)@, args@)),
        decreases esheight(args@), 2int,
    {
        if args.len() != 2 {
            return Err(
                EvaluationError::InvalidArgumentCount("expected exactly 2 arguments".to_owned()),
            );
        }
        proof {
            lemma_esheight_index(args@, 0);
            lemma_esheight_index(args@, 1);
        }
        let text = match evaluator.evaluate_expression(context, &args[0]) {
            Ok(v) => match v {
                DataValue::Text(t) => t,
                _ => {
                    return Err(EvaluationError::InvalidArgument("expected text".to_owned()));
                },
            },
            Err(e) => {
                return Err(e);
            },
        };
        let count = match evaluator.evaluate_expression(context, &args[1]) {
            Ok(v) => match v {
                DataValue::Number(n) => crate::numeric::ieee_trunc_usize(n),
                _ => {
                    return Err(EvaluationError::InvalidArgument("expected a number".to_owned()));
                },
            },
            Err(e) => {
                return Err(e);
            },
        };
        let len = text.as_str().unicode_len();
        let take = if count < len {
            count
        } else {
            len
        };
        let sub = text.as_str().substring_char(0, take).to_owned();
        proof {
            if count >= len {
                assert(text@.subrange(0, take as int) =~= text@);
            }
        }
        Ok(DataValue::Text(sub))
    }
}

/// The `Right` built-in.
pub struct Right;

impl Right {
    /// The callable itself; it carries no state.
    pub fn new() -> (r: Right) {
        Right
    }

    /// The last `n` characters of a text.
    pub fn call(
        &self,
        evaluator: &ExpressionEvaluator,
        context: &mut Session,
        args: &Vec<Expression>,
    ) -> (r: Result<DataValue, EvaluationError>)
        ensures
            out_matches(final(context)@, r, spec_right(evaluator@, old(context)@, args@)),
        decreases esheight(args@), 2int,
    {
        if args.len() != 2 {
            return Err(
                EvaluationError::InvalidArgumentCount("expected exactly 2 arguments".to_owned()),
            );
        }
        proof {
            lemma_esheight_index(args@, 0);
            lemma_esheight_index(args@, 1);
        }
        let text = match evaluator.evaluate_expression(context, &args[0]) {
            Ok(v) => match v {
                DataValue::Text(t) => t,
                _ => {
                    return Err(EvaluationError::InvalidArgument("expected text".to_owned()));
                },
            },
            Err(e) => {
                return Err(e);
            },
        };
        let count = match evaluator.evaluate_expression(context, &args[1]) {
            Ok(v) => match v {
                DataValue::Number(n) => crate::numeric::ieee_trunc_usize(n),
                _ => {
                    return Err(EvaluationError::InvalidArgument("expected a number".to_owned()));
                },
            },
            Err(e) => {
                return Err(e);
            },
        };
        let len = text.as_str().unicode_len();
        let keep = if count < len {
            count
        } else {
            len
        };
        let sub = text.as_str().substring_char(len - keep, len).to_owned();
        proof {
            if count >= len {
                assert(text@.subrange(len - keep, len as int) =~= text@);
            }
        }
        Ok(DataValue::Text(sub))
    }
}

/// The `Mid` built-in.
pub struct Mid;

impl Mid {
    /// The callable itself; it carries no state.
    pub fn new() -> (r: Mid) {
        Mid
    }

    /// A middle run of a text: 1-based start, optional count.
    pub fn call(
        &self,
        evaluator: &ExpressionEvaluator,
        context: &mut Session,
        args: &Vec<Expression>,
    ) -> (r: Result<DataValue, EvaluationError>)
        ensures
            out_matches(final(context)@, r, spec_mid(evaluator@, old(context)@, args@)),
        decreases esheight(args@), 2int,
    {
        if args.len() < 2 {
            return Err(
                EvaluationError::InvalidArgumentCount("expected at least 2 arguments".to_owned()),
            );
        }
        proof {
            lemma_esheight_index(args@, 0);
            lemma_esheight_index(args@, 1);
            if args@.len() == 3 {
                lemma_esheight_index(args@, 2);
            }
        }
        let text = match evaluator.evaluate_expression(context, &args[0]) {
            Ok(v) => match v {
                DataValue::Text(t) => t,
                _ => {
                    return Err(EvaluationError::InvalidArgument("expected text".to_owned()));
                },
            },
            Err(e) => {
                return Err(e);
            },
        };
        let start = match evaluator.evaluate_expression(context, &args[1]) {
            Ok(v) => match v {
                DataValue::Number(n) => crate::numeric::ieee_trunc_usize(n),
                _ => {
                    return Err(EvaluationError::InvalidArgument("expected a number".to_owned()));
                },
            },
            Err(e) => {
                return Err(e);
            },
        };
        let len = text.as_str().unicode_len();
        let count = if args.len() == 3 {
            match evaluator.evaluate_expression(context, &args[2]) {
                Ok(v) => match v {
                    DataValue::Number(n) => crate::numeric::ieee_trunc_usize(n),
                    _ => {
                        return Err(
                            EvaluationError::InvalidArgument("expected a number".to_owned()),
                        );
                    },
                },
                Err(e) => {
                    return Err(e);
                },
            }
        } else {
            len
        };
        let skip = if start >= 1 {
            start - 1
        } else {
            0
        };
        let lo = if skip < len {
            skip
        } else {
            len
        };
        let want = if count < len - lo {
            count
        } else {
            len - lo
        };
        let sub = text.as_str().substring_char(lo, lo + want).to_owned();
        Ok(DataValue::Text(sub))
    }
}

} // verus!

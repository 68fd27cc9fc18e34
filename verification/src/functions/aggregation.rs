//! The aggregation built-ins: `Sum`, `Average`, `Min`, `Max`, each with a
//! tabular shape (table plus projection) and a variadic shape.
use vstd::prelude::*;

use crate::ast::Expression;
use crate::ast::esheight;
use crate::ast::lemma_esheight_index;
use crate::evaluator::ErrV;
use crate::evaluator::EvalOut;
use crate::evaluator::EvaluationError;
use crate::evaluator::ExpressionEvaluator;
use crate::evaluator::SessView;
use crate::evaluator::Session;
use crate::evaluator::out_matches;
use crate::evaluator::row_opt_view;
use crate::evaluator::spec_eval;
use crate::function_registry::Function;
use crate::models::DataValue;
use crate::models::Record;
use crate::models::Val;
use crate::models::duplicate_fields;
use crate::models::lemma_rows_view_index;
use crate::models::lemma_rows_view_len;
use crate::models::rows_view;
use crate::numeric::add_bits;
use crate::numeric::div_bits;
use crate::numeric::int_bits;
use crate::numeric::num_add;
use crate::numeric::num_div;
use crate::numeric::num_from_i128;
use crate::numeric::num_lt;

verus! {

broadcast use vstd::std_specs::vec::group_vec_axioms, vstd::seq::group_seq_axioms;

/// Folds the next number into a running minimum, by IEEE-754 `<`.
pub open spec fn min_step(acc: Option<u64>, n: u64) -> Option<u64> {
    match acc {
        Option::Some(r) => if num_lt(n, r) {
            Option::Some(n)
        } else {
            Option::Some(r)
        },
        Option::None => Option::Some(n),
    }
}

/// Folds the next number into a running maximum, by IEEE-754 `<`.
pub open spec fn max_step(acc: Option<u64>, n: u64) -> Option<u64> {
    match acc {
        Option::Some(r) => if num_lt(r, n) {
            Option::Some(n)
        } else {
            Option::Some(r)
        },
        Option::None => Option::Some(n),
    }
}

/// The extremum as a value: the number when one was seen, Blank
/// otherwise.
pub open spec fn opt_num_val(acc: Option<u64>) -> Val {
    match acc {
        Option::Some(r) => Val::Num(r),
        Option::None => Val::Blank,
    }
}

/// Iterates the rows of `Sum`'s tabular shape from place `i` on,
/// evaluating the projection with each row as the overlay; afterwards the
/// original row overlay stands again.
pub open spec fn spec_sum_rows(
    fr: Map<Seq<char>, Function>,
    g: Map<Seq<char>, Val>,
    orig_row: Option<Seq<(Seq<char>, Val)>>,
    rows: Seq<Seq<(Seq<char>, Val)>>,
    args: Seq<Expression>,
    i: int,
    acc: u64,
) -> EvalOut
    decreases esheight(args), 2int, rows.len() - i, 0int,
    when 0 <= i <= rows.len() && args.len() == 2
    via spec_sum_rows_dec
{
    if i >= rows.len() {
        (SessView { globals: g, row: orig_row }, Result::Ok(Val::Num(acc)))
    } else {
        let (s1, r) = spec_eval(fr, SessView { globals: g, row: Option::Some(rows[i]) }, args[1]);
        match r {
            Result::Ok(Val::Num(n)) => spec_sum_rows(
                fr,
                s1.globals,
                orig_row,
                rows,
                args,
                i + 1,
                add_bits(acc, n),
            ),
            Result::Ok(_) => (
                SessView { globals: s1.globals, row: orig_row },
                Result::Err(ErrV::InvalidArgument("expected a number"@)),
            ),
            Result::Err(er) => (
                SessView { globals: s1.globals, row: orig_row },
                Result::Err(er),
            ),
        }
    }
}

#[via_fn]
proof fn spec_sum_rows_dec(
    fr: Map<Seq<char>, Function>,
    g: Map<Seq<char>, Val>,
    orig_row: Option<Seq<(Seq<char>, Val)>>,
    rows: Seq<Seq<(Seq<char>, Val)>>,
    args: Seq<Expression>,
    i: int,
    acc: u64,
) {
    if 0 <= i < rows.len() && args.len() == 2 {
        lemma_esheight_index(args, 1);
    }
}

/// Iterates the arguments of `Sum`'s variadic shape from place `i`
/// on; every argument must evaluate to a number.
pub open spec fn spec_sum_args(
    fr: Map<Seq<char>, Function>,
    s: SessView,
    args: Seq<Expression>,
    i: int,
    acc: u64,
) -> EvalOut
    decreases esheight(args), 2int, args.len() - i, 0int,
    when 0 <= i <= args.len()
    via spec_sum_args_dec
{
    if i >= args.len() {
        (s, Result::Ok(Val::Num(acc)))
    } else {
        let (s1, r) = spec_eval(fr, s, args[i]);
        match r {
            Result::Ok(Val::Num(n)) => spec_sum_args(fr, s1, args, i + 1, add_bits(acc, n)),
            Result::Ok(_) => (s1, Result::Err(ErrV::InvalidArgument("expected a number"@))),
            Result::Err(er) => (s1, Result::Err(er)),
        }
    }
}

#[via_fn]
proof fn spec_sum_args_dec(
    fr: Map<Seq<char>, Function>,
    s: SessView,
    args: Seq<Expression>,
    i: int,
    acc: u64,
) {
    if 0 <= i < args.len() {
        lemma_esheight_index(args, i);
    }
}

/// What `Sum` yields: the tabular shape when the first argument
/// evaluates to a table, the variadic shape otherwise (the first argument
/// is then evaluated a second time).
pub open spec fn spec_sum(fr: Map<Seq<char>, Function>, s: SessView, args: Seq<Expression>) -> EvalOut
    decreases esheight(args), 3int, 0int, 0int,
    via spec_sum_dec
{
    if args.len() == 0 {
        (s, Result::Err(ErrV::InvalidArgumentCount("expected at least 1 argument"@)))
    } else {
        let (s1, r) = spec_eval(fr, s, args[0]);
        match r {
            Result::Ok(Val::Tab(rows)) => if args.len() != 2 {
                (s1, Result::Err(ErrV::InvalidArgumentCount("expected exactly 2 arguments"@)))
            } else {
                spec_sum_rows(fr, s1.globals, s1.row, rows, args, 0, 0u64)
            },
            Result::Ok(_) => spec_sum_args(fr, s1, args, 0, 0u64),
            Result::Err(er) => (s1, Result::Err(er)),
        }
    }
}

#[via_fn]
proof fn spec_sum_dec(fr: Map<Seq<char>, Function>, s: SessView, args: Seq<Expression>) {
    if args.len() >= 1 {
        lemma_esheight_index(args, 0);
    }
}

/// Iterates the rows of `Average`'s tabular shape from place `i` on,
/// evaluating the projection with each row as the overlay; afterwards the
/// original row overlay stands again.
pub open spec fn spec_average_rows(
    fr: Map<Seq<char>, Function>,
    g: Map<Seq<char>, Val>,
    orig_row: Option<Seq<(Seq<char>, Val)>>,
    rows: Seq<Seq<(Seq<char>, Val)>>,
    args: Seq<Expression>,
    i: int,
    acc: (u64, int),
) -> EvalOut
    decreases esheight(args), 2int, rows.len() - i, 0int,
    when 0 <= i <= rows.len() && args.len() == 2
    via spec_average_rows_dec
{
    if i >= rows.len() {
        (SessView { globals: g, row: orig_row }, Result::Ok(Val::Num(div_bits(acc.0, int_bits(acc.1)))))
    } else {
        let (s1, r) = spec_eval(fr, SessView { globals: g, row: Option::Some(rows[i]) }, args[1]);
        match r {
            Result::Ok(Val::Num(n)) => spec_average_rows(
                fr,
                s1.globals,
                orig_row,
                rows,
                args,
                i + 1,
                (add_bits(acc.0, n), acc.1 + 1),
            ),
            Result::Ok(_) => (
                SessView { globals: s1.globals, row: orig_row },
                Result::Err(ErrV::InvalidArgument("expected a number"@)),
            ),
            Result::Err(er) => (
                SessView { globals: s1.globals, row: orig_row },
                Result::Err(er),
            ),
        }
    }
}

#[via_fn]
proof fn spec_average_rows_dec(
    fr: Map<Seq<char>, Function>,
    g: Map<Seq<char>, Val>,
    orig_row: Option<Seq<(Seq<char>, Val)>>,
    rows: Seq<Seq<(Seq<char>, Val)>>,
    args: Seq<Expression>,
    i: int,
    acc: (u64, int),
) {
    if 0 <= i < rows.len() && args.len() == 2 {
        lemma_esheight_index(args, 1);
    }
}

/// Iterates the arguments of `Average`'s variadic shape from place `i`
/// on; every argument must evaluate to a number.
pub open spec fn spec_average_args(
    fr: Map<Seq<char>, Function>,
    s: SessView,
    args: Seq<Expression>,
    i: int,
    acc: (u64, int),
) -> EvalOut
    decreases esheight(args), 2int, args.len() - i, 0int,
    when 0 <= i <= args.len()
    via spec_average_args_dec
{
    if i >= args.len() {
        (s, Result::Ok(Val::Num(div_bits(acc.0, int_bits(acc.1)))))
    } else {
        let (s1, r) = spec_eval(fr, s, args[i]);
        match r {
            Result::Ok(Val::Num(n)) => spec_average_args(fr, s1, args, i + 1, (add_bits(acc.0, n), acc.1 + 1)),
            Result::Ok(_) => (s1, Result::Err(ErrV::InvalidArgument("expected a number"@))),
            Result::Err(er) => (s1, Result::Err(er)),
        }
    }
}

#[via_fn]
proof fn spec_average_args_dec(
    fr: Map<Seq<char>, Function>,
    s: SessView,
    args: Seq<Expression>,
    i: int,
    acc: (u64, int),
) {
    if 0 <= i < args.len() {
        lemma_esheight_index(args, i);
    }
}

/// What `Average` yields: the tabular shape when the first argument
/// evaluates to a table, the variadic shape otherwise (the first argument
/// is then evaluated a second time).
pub open spec fn spec_average(fr: Map<Seq<char>, Function>, s: SessView, args: Seq<Expression>) -> EvalOut
    decreases esheight(args), 3int, 0int, 0int,
    via spec_average_dec
{
    if args.len() == 0 {
        (s, Result::Err(ErrV::InvalidArgumentCount("expected at least 1 argument"@)))
    } else {
        let (s1, r) = spec_eval(fr, s, args[0]);
        match r {
            Result::Ok(Val::Tab(rows)) => if args.len() != 2 {
                (s1, Result::Err(ErrV::InvalidArgumentCount("expected exactly 2 arguments"@)))
            } else {
                spec_average_rows(fr, s1.globals, s1.row, rows, args, 0, (0u64, 0int))
            },
            Result::Ok(_) => spec_average_args(fr, s1, args, 0, (0u64, 0int)),
            Result::Err(er) => (s1, Result::Err(er)),
        }
    }
}

#[via_fn]
proof fn spec_average_dec(fr: Map<Seq<char>, Function>, s: SessView, args: Seq<Expression>) {
    if args.len() >= 1 {
        lemma_esheight_index(args, 0);
    }
}

/// Iterates the rows of `Min`'s tabular shape from place `i` on,
/// evaluating the projection with each row as the overlay; afterwards the
/// original row overlay stands again.
pub open spec fn spec_min_rows(
    fr: Map<Seq<char>, Function>,
    g: Map<Seq<char>, Val>,
    orig_row: Option<Seq<(Seq<char>, Val)>>,
    rows: Seq<Seq<(Seq<char>, Val)>>,
    args: Seq<Expression>,
    i: int,
    acc: Option<u64>,
) -> EvalOut
    decreases esheight(args), 2int, rows.len() - i, 0int,
    when 0 <= i <= rows.len() && args.len() == 2
    via spec_min_rows_dec
{
    if i >= rows.len() {
        (SessView { globals: g, row: orig_row }, Result::Ok(opt_num_val(acc)))
    } else {
        let (s1, r) = spec_eval(fr, SessView { globals: g, row: Option::Some(rows[i]) }, args[1]);
        match r {
            Result::Ok(Val::Num(n)) => spec_min_rows(
                fr,
                s1.globals,
                orig_row,
                rows,
                args,
                i + 1,
                min_step(acc, n),
            ),
            Result::Ok(_) => (
                SessView { globals: s1.globals, row: orig_row },
                Result::Err(ErrV::InvalidArgument("expected a number"@)),
            ),
            Result::Err(er) => (
                SessView { globals: s1.globals, row: orig_row },
                Result::Err(er),
            ),
        }
    }
}

#[via_fn]
proof fn spec_min_rows_dec(
    fr: Map<Seq<char>, Function>,
    g: Map<Seq<char>, Val>,
    orig_row: Option<Seq<(Seq<char>, Val)>>,
    rows: Seq<Seq<(Seq<char>, Val)>>,
    args: Seq<Expression>,
    i: int,
    acc: Option<u64>,
) {
    if 0 <= i < rows.len() && args.len() == 2 {
        lemma_esheight_index(args, 1);
    }
}

/// Iterates the arguments of `Min`'s variadic shape from place `i`
/// on; every argument must evaluate to a number.
pub open spec fn spec_min_args(
    fr: Map<Seq<char>, Function>,
    s: SessView,
    args: Seq<Expression>,
    i: int,
    acc: Option<u64>,
) -> EvalOut
    decreases esheight(args), 2int, args.len() - i, 0int,
    when 0 <= i <= args.len()
    via spec_min_args_dec
{
    if i >= args.len() {
        (s, Result::Ok(opt_num_val(acc)))
    } else {
        let (s1, r) = spec_eval(fr, s, args[i]);
        match r {
            Result::Ok(Val::Num(n)) => spec_min_args(fr, s1, args, i + 1, min_step(acc, n)),
            Result::Ok(_) => (s1, Result::Err(ErrV::InvalidArgument("expected a number"@))),
            Result::Err(er) => (s1, Result::Err(er)),
        }
    }
}

#[via_fn]
proof fn spec_min_args_dec(
    fr: Map<Seq<char>, Function>,
    s: SessView,
    args: Seq<Expression>,
    i: int,
    acc: Option<u64>,
) {
    if 0 <= i < args.len() {
        lemma_esheight_index(args, i);
    }
}

/// What `Min` yields: the tabular shape when the first argument
/// evaluates to a table, the variadic shape otherwise (the first argument
/// is then evaluated a second time).
pub open spec fn spec_min(fr: Map<Seq<char>, Function>, s: SessView, args: Seq<Expression>) -> EvalOut
    decreases esheight(args), 3int, 0int, 0int,
    via spec_min_dec
{
    if args.len() == 0 {
        (s, Result::Err(ErrV::InvalidArgumentCount("expected at least 1 argument"@)))
    } else {
        let (s1, r) = spec_eval(fr, s, args[0]);
        match r {
            Result::Ok(Val::Tab(rows)) => if args.len() != 2 {
                (s1, Result::Err(ErrV::InvalidArgumentCount("expected exactly 2 arguments"@)))
            } else {
                spec_min_rows(fr, s1.globals, s1.row, rows, args, 0, Option::<u64>::None)
            },
            Result::Ok(_) => spec_min_args(fr, s1, args, 0, Option::<u64>::None),
            Result::Err(er) => (s1, Result::Err(er)),
        }
    }
}

#[via_fn]
proof fn spec_min_dec(fr: Map<Seq<char>, Function>, s: SessView, args: Seq<Expression>) {
    if args.len() >= 1 {
        lemma_esheight_index(args, 0);
    }
}

/// Iterates the rows of `Max`'s tabular shape from place `i` on,
/// evaluating the projection with each row as the overlay; afterwards the
/// original row overlay stands again.
pub open spec fn spec_max_rows(
    fr: Map<Seq<char>, Function>,
    g: Map<Seq<char>, Val>,
    orig_row: Option<Seq<(Seq<char>, Val)>>,
    rows: Seq<Seq<(Seq<char>, Val)>>,
    args: Seq<Expression>,
    i: int,
    acc: Option<u64>,
) -> EvalOut
    decreases esheight(args), 2int, rows.len() - i, 0int,
    when 0 <= i <= rows.len() && args.len() == 2
    via spec_max_rows_dec
{
    if i >= rows.len() {
        (SessView { globals: g, row: orig_row }, Result::Ok(opt_num_val(acc)))
    } else {
        let (s1, r) = spec_eval(fr, SessView { globals: g, row: Option::Some(rows[i]) }, args[1]);
        match r {
            Result::Ok(Val::Num(n)) => spec_max_rows(
                fr,
                s1.globals,
                orig_row,
                rows,
                args,
                i + 1,
                max_step(acc, n),
            ),
            Result::Ok(_) => (
                SessView { globals: s1.globals, row: orig_row },
                Result::Err(ErrV::InvalidArgument("expected a number"@)),
            ),
            Result::Err(er) => (
                SessView { globals: s1.globals, row: orig_row },
                Result::Err(er),
            ),
        }
    }
}

#[via_fn]
proof fn spec_max_rows_dec(
    fr: Map<Seq<char>, Function>,
    g: Map<Seq<char>, Val>,
    orig_row: Option<Seq<(Seq<char>, Val)>>,
    rows: Seq<Seq<(Seq<char>, Val)>>,
    args: Seq<Expression>,
    i: int,
    acc: Option<u64>,
) {
    if 0 <= i < rows.len() && args.len() == 2 {
        lemma_esheight_index(args, 1);
    }
}

/// Iterates the arguments of `Max`'s variadic shape from place `i`
/// on; every argument must evaluate to a number.
pub open spec fn spec_max_args(
    fr: Map<Seq<char>, Function>,
    s: SessView,
    args: Seq<Expression>,
    i: int,
    acc: Option<u64>,
) -> EvalOut
    decreases esheight(args), 2int, args.len() - i, 0int,
    when 0 <= i <= args.len()
    via spec_max_args_dec
{
    if i >= args.len() {
        (s, Result::Ok(opt_num_val(acc)))
    } else {
        let (s1, r) = spec_eval(fr, s, args[i]);
        match r {
            Result::Ok(Val::Num(n)) => spec_max_args(fr, s1, args, i + 1, max_step(acc, n)),
            Result::Ok(_) => (s1, Result::Err(ErrV::InvalidArgument("expected a number"@))),
            Result::Err(er) => (s1, Result::Err(er)),
        }
    }
}

#[via_fn]
proof fn spec_max_args_dec(
    fr: Map<Seq<char>, Function>,
    s: SessView,
    args: Seq<Expression>,
    i: int,
    acc: Option<u64>,
) {
    if 0 <= i < args.len() {
        lemma_esheight_index(args, i);
    }
}

/// What `Max` yields: the tabular shape when the first argument
/// evaluates to a table, the variadic shape otherwise (the first argument
/// is then evaluated a second time).
pub open spec fn spec_max(fr: Map<Seq<char>, Function>, s: SessView, args: Seq<Expression>) -> EvalOut
    decreases esheight(args), 3int, 0int, 0int,
    via spec_max_dec
{
    if args.len() == 0 {
        (s, Result::Err(ErrV::InvalidArgumentCount("expected at least 1 argument"@)))
    } else {
        let (s1, r) = spec_eval(fr, s, args[0]);
        match r {
            Result::Ok(Val::Tab(rows)) => if args.len() != 2 {
                (s1, Result::Err(ErrV::InvalidArgumentCount("expected exactly 2 arguments"@)))
            } else {
                spec_max_rows(fr, s1.globals, s1.row, rows, args, 0, Option::<u64>::None)
            },
            Result::Ok(_) => spec_max_args(fr, s1, args, 0, Option::<u64>::None),
            Result::Err(er) => (s1, Result::Err(er)),
        }
    }
}

#[via_fn]
proof fn spec_max_dec(fr: Map<Seq<char>, Function>, s: SessView, args: Seq<Expression>) {
    if args.len() >= 1 {
        lemma_esheight_index(args, 0);
    }
}


/// The `Sum` built-in.
pub struct Sum;

impl Sum {
    /// The callable itself; it carries no state.
    pub fn new() -> (r: Sum) {
        Sum
    }

    /// The aggregate, over a table with a projection or over the
    /// arguments themselves.
    #[verifier::loop_isolation(false)]
    pub fn call(
        &self,
        evaluator: &ExpressionEvaluator,
        context: &mut Session,
        args: &Vec<Expression>,
    ) -> (r: Result<DataValue, EvaluationError>)
        ensures
            out_matches(final(context)@, r, spec_sum(evaluator@, old(context)@, args@)),
        decreases esheight(args@), 2int,
    {
        if args.len() == 0 {
            return Err(
                EvaluationError::InvalidArgumentCount("expected at least 1 argument".to_owned()),
            );
        }
        proof {
            lemma_esheight_index(args@, 0);
        }
        let first = match evaluator.evaluate_expression(context, &args[0]) {
            Ok(v) => v,
            Err(e) => {
                return Err(e);
            },
        };
        match first {
            DataValue::Table(table) => {
                if args.len() != 2 {
                    return Err(
                        EvaluationError::InvalidArgumentCount(
                            "expected exactly 2 arguments".to_owned(),
                        ),
                    );
                }
                let ghost g1 = context@.globals;
                let ghost orig_rowv = context@.row;
                let ghost rowsv = rows_view(table@);
                let mut saved: Option<Record> = None;
                core::mem::swap(&mut context.row, &mut saved);
                proof {
                    lemma_rows_view_len(table@);
                }
                let mut acc: u64 = 0;
                let mut i: usize = 0;
                while i < table.len()
                    invariant
                        0 <= i <= table@.len(),
                        args@.len() == 2,
                        rowsv == rows_view(table@),
                        rowsv.len() == table@.len(),
                        row_opt_view(saved) == orig_rowv,
                        spec_sum_rows(evaluator@, g1, orig_rowv, rowsv, args@, 0, 0u64)
                            == spec_sum_rows(
                            evaluator@,
                            context@.globals,
                            orig_rowv,
                            rowsv,
                            args@,
                            i as int,
                            acc,
                        ),
                    decreases table@.len() - i,
                {
                    proof {
                        lemma_rows_view_index(table@, i as int);
                        lemma_esheight_index(args@, 1);
                    }
                    context.row = Some(Record { fields: duplicate_fields(&table[i].fields) });
                    match evaluator.evaluate_expression(context, &args[1]) {
                        Ok(v) => match v {
                            DataValue::Number(n) => {
                                acc = num_add(acc, n);
                            },
                            _ => {
                                core::mem::swap(&mut context.row, &mut saved);
                                return Err(
                                    EvaluationError::InvalidArgument(
                                        "expected a number".to_owned(),
                                    ),
                                );
                            },
                        },
                        Err(e) => {
                            core::mem::swap(&mut context.row, &mut saved);
                            return Err(e);
                        },
                    }
                    i = i + 1;
                }
                core::mem::swap(&mut context.row, &mut saved);
                Ok(DataValue::Number(acc))
            },
            _ => {
                let ghost s1 = context@;
                let mut acc: u64 = 0;
                let mut i: usize = 0;
                while i < args.len()
                    invariant
                        0 <= i <= args@.len(),
                        spec_sum_args(evaluator@, s1, args@, 0, 0u64)
                            == spec_sum_args(
                            evaluator@,
                            context@,
                            args@,
                            i as int,
                            acc,
                        ),
                    decreases args@.len() - i,
                {
                    proof {
                        lemma_esheight_index(args@, i as int);
                    }
                    match evaluator.evaluate_expression(context, &args[i]) {
                        Ok(v) => match v {
                            DataValue::Number(n) => {
                                acc = num_add(acc, n);
                            },
                            _ => {
                                return Err(
                                    EvaluationError::InvalidArgument(
                                        "expected a number".to_owned(),
                                    ),
                                );
                            },
                        },
                        Err(e) => {
                            return Err(e);
                        },
                    }
                    i = i + 1;
                }
                Ok(DataValue::Number(acc))
            },
        }
    }
}

/// The `Average` built-in.
pub struct Average;

impl Average {
    /// The callable itself; it carries no state.
    pub fn new() -> (r: Average) {
        Average
    }

    /// The aggregate, over a table with a projection or over the
    /// arguments themselves.
    #[verifier::loop_isolation(false)]
    pub fn call(
        &self,
        evaluator: &ExpressionEvaluator,
        context: &mut Session,
        args: &Vec<Expression>,
    ) -> (r: Result<DataValue, EvaluationError>)
        ensures
            out_matches(final(context)@, r, spec_average(evaluator@, old(context)@, args@)),
        decreases esheight(args@), 2int,
    {
        if args.len() == 0 {
            return Err(
                EvaluationError::InvalidArgumentCount("expected at least 1 argument".to_owned()),
            );
        }
        proof {
            lemma_esheight_index(args@, 0);
        }
        let first = match evaluator.evaluate_expression(context, &args[0]) {
            Ok(v) => v,
            Err(e) => {
                return Err(e);
            },
        };
        match first {
            DataValue::Table(table) => {
                if args.len() != 2 {
                    return Err(
                        EvaluationError::InvalidArgumentCount(
                            "expected exactly 2 arguments".to_owned(),
                        ),
                    );
                }
                let ghost g1 = context@.globals;
                let ghost orig_rowv = context@.row;
                let ghost rowsv = rows_view(table@);
                let mut saved: Option<Record> = None;
                core::mem::swap(&mut context.row, &mut saved);
                proof {
                    lemma_rows_view_len(table@);
                }
                let mut sum: u64 = 0;
                let mut count: usize = 0;
                let mut i: usize = 0;
                while i < table.len()
                    invariant
                        0 <= i <= table@.len(),
                        args@.len() == 2,
                        rowsv == rows_view(table@),
                        rowsv.len() == table@.len(),
                        row_opt_view(saved) == orig_rowv,
                        count == i,
                        spec_average_rows(evaluator@, g1, orig_rowv, rowsv, args@, 0, (0u64, 0int))
                            == spec_average_rows(
                            evaluator@,
                            context@.globals,
                            orig_rowv,
                            rowsv,
                            args@,
                            i as int,
                            (sum as u64, count as int),
                        ),
                    decreases table@.len() - i,
                {
                    proof {
                        lemma_rows_view_index(table@, i as int);
                        lemma_esheight_index(args@, 1);
                    }
                    context.row = Some(Record { fields: duplicate_fields(&table[i].fields) });
                    match evaluator.evaluate_expression(context, &args[1]) {
                        Ok(v) => match v {
                            DataValue::Number(n) => {
                                sum = num_add(sum, n);
                                count = count + 1;
                            },
                            _ => {
                                core::mem::swap(&mut context.row, &mut saved);
                                return Err(
                                    EvaluationError::InvalidArgument(
                                        "expected a number".to_owned(),
                                    ),
                                );
                            },
                        },
                        Err(e) => {
                            core::mem::swap(&mut context.row, &mut saved);
                            return Err(e);
                        },
                    }
                    i = i + 1;
                }
                core::mem::swap(&mut context.row, &mut saved);
                let cb = num_from_i128(count as i128);
                Ok(DataValue::Number(num_div(sum, cb)))
            },
            _ => {
                let ghost s1 = context@;
                let mut sum: u64 = 0;
                let mut count: usize = 0;
                let mut i: usize = 0;
                while i < args.len()
                    invariant
                        0 <= i <= args@.len(),
                        count == i,
                        spec_average_args(evaluator@, s1, args@, 0, (0u64, 0int))
                            == spec_average_args(
                            evaluator@,
                            context@,
                            args@,
                            i as int,
                            (sum as u64, count as int),
                        ),
                    decreases args@.len() - i,
                {
                    proof {
                        lemma_esheight_index(args@, i as int);
                    }
                    match evaluator.evaluate_expression(context, &args[i]) {
                        Ok(v) => match v {
                            DataValue::Number(n) => {
                                sum = num_add(sum, n);
                                count = count + 1;
                            },
                            _ => {
                                return Err(
                                    EvaluationError::InvalidArgument(
                                        "expected a number".to_owned(),
                                    ),
                                );
                            },
                        },
                        Err(e) => {
                            return Err(e);
                        },
                    }
                    i = i + 1;
                }
                let cb = num_from_i128(count as i128);
                Ok(DataValue::Number(num_div(sum, cb)))
            },
        }
    }
}

/// The `Min` built-in.
pub struct Min;

impl Min {
    /// The callable itself; it carries no state.
    pub fn new() -> (r: Min) {
        Min
    }

    /// The aggregate, over a table with a projection or over the
    /// arguments themselves.
    #[verifier::loop_isolation(false)]
    pub fn call(
        &self,
        evaluator: &ExpressionEvaluator,
        context: &mut Session,
        args: &Vec<Expression>,
    ) -> (r: Result<DataValue, EvaluationError>)
        ensures
            out_matches(final(context)@, r, spec_min(evaluator@, old(context)@, args@)),
        decreases esheight(args@), 2int,
    {
        if args.len() == 0 {
            return Err(
                EvaluationError::InvalidArgumentCount("expected at least 1 argument".to_owned()),
            );
        }
        proof {
            lemma_esheight_index(args@, 0);
        }
        let first = match evaluator.evaluate_expression(context, &args[0]) {
            Ok(v) => v,
            Err(e) => {
                return Err(e);
            },
        };
        match first {
            DataValue::Table(table) => {
                if args.len() != 2 {
                    return Err(
                        EvaluationError::InvalidArgumentCount(
                            "expected exactly 2 arguments".to_owned(),
                        ),
                    );
                }
                let ghost g1 = context@.globals;
                let ghost orig_rowv = context@.row;
                let ghost rowsv = rows_view(table@);
                let mut saved: Option<Record> = None;
                core::mem::swap(&mut context.row, &mut saved);
                proof {
                    lemma_rows_view_len(table@);
                }
                let mut acc: Option<u64> = None;
                let mut i: usize = 0;
                while i < table.len()
                    invariant
                        0 <= i <= table@.len(),
                        args@.len() == 2,
                        rowsv == rows_view(table@),
                        rowsv.len() == table@.len(),
                        row_opt_view(saved) == orig_rowv,
                        spec_min_rows(evaluator@, g1, orig_rowv, rowsv, args@, 0, Option::<u64>::None)
                            == spec_min_rows(
                            evaluator@,
                            context@.globals,
                            orig_rowv,
                            rowsv,
                            args@,
                            i as int,
                            acc,
                        ),
                    decreases table@.len() - i,
                {
                    proof {
                        lemma_rows_view_index(table@, i as int);
                        lemma_esheight_index(args@, 1);
                    }
                    context.row = Some(Record { fields: duplicate_fields(&table[i].fields) });
                    match evaluator.evaluate_expression(context, &args[1]) {
                        Ok(v) => match v {
                            DataValue::Number(n) => {
                                acc = match acc {
                                    Some(prev) => if crate::numeric::ieee_lt(n, prev) {
                                        Some(n)
                                    } else {
                                        Some(prev)
                                    },
                                    None => Some(n),
                                };
                            },
                            _ => {
                                core::mem::swap(&mut context.row, &mut saved);
                                return Err(
                                    EvaluationError::InvalidArgument(
                                        "expected a number".to_owned(),
                                    ),
                                );
                            },
                        },
                        Err(e) => {
                            core::mem::swap(&mut context.row, &mut saved);
                            return Err(e);
                        },
                    }
                    i = i + 1;
                }
                core::mem::swap(&mut context.row, &mut saved);
                match acc {
                    Some(prev) => Ok(DataValue::Number(prev)),
                    None => Ok(DataValue::Blank),
                }
            },
            _ => {
                let ghost s1 = context@;
                let mut acc: Option<u64> = None;
                let mut i: usize = 0;
                while i < args.len()
                    invariant
                        0 <= i <= args@.len(),
                        spec_min_args(evaluator@, s1, args@, 0, Option::<u64>::None)
                            == spec_min_args(
                            evaluator@,
                            context@,
                            args@,
                            i as int,
                            acc,
                        ),
                    decreases args@.len() - i,
                {
                    proof {
                        lemma_esheight_index(args@, i as int);
                    }
                    match evaluator.evaluate_expression(context, &args[i]) {
                        Ok(v) => match v {
                            DataValue::Number(n) => {
                                acc = match acc {
                                    Some(prev) => if crate::numeric::ieee_lt(n, prev) {
                                        Some(n)
                                    } else {
                                        Some(prev)
                                    },
                                    None => Some(n),
                                };
                            },
                            _ => {
                                return Err(
                                    EvaluationError::InvalidArgument(
                                        "expected a number".to_owned(),
                                    ),
                                );
                            },
                        },
                        Err(e) => {
                            return Err(e);
                        },
                    }
                    i = i + 1;
                }
                match acc {
                    Some(prev) => Ok(DataValue::Number(prev)),
                    None => Ok(DataValue::Blank),
                }
            },
        }
    }
}

/// The `Max` built-in.
pub struct Max;

impl Max {
    /// The callable itself; it carries no state.
    pub fn new() -> (r: Max) {
        Max
    }

    /// The aggregate, over a table with a projection or over the
    /// arguments themselves.
    #[verifier::loop_isolation(false)]
    pub fn call(
        &self,
        evaluator: &ExpressionEvaluator,
        context: &mut Session,
        args: &Vec<Expression>,
    ) -> (r: Result<DataValue, EvaluationError>)
        ensures
            out_matches(final(context)@, r, spec_max(evaluator@, old(context)@, args@)),
        decreases esheight(args@), 2int,
    {
        if args.len() == 0 {
            return Err(
                EvaluationError::InvalidArgumentCount("expected at least 1 argument".to_owned()),
            );
        }
        proof {
            lemma_esheight_index(args@, 0);
        }
        let first = match evaluator.evaluate_expression(context, &args[0]) {
            Ok(v) => v,
            Err(e) => {
                return Err(e);
            },
        };
        match first {
            DataValue::Table(table) => {
                if args.len() != 2 {
                    return Err(
                        EvaluationError::InvalidArgumentCount(
                            "expected exactly 2 arguments".to_owned(),
                        ),
                    );
                }
                let ghost g1 = context@.globals;
                let ghost orig_rowv = context@.row;
                let ghost rowsv = rows_view(table@);
                let mut saved: Option<Record> = None;
                core::mem::swap(&mut context.row, &mut saved);
                proof {
                    lemma_rows_view_len(table@);
                }
                let mut acc: Option<u64> = None;
                let mut i: usize = 0;
                while i < table.len()
                    invariant
                        0 <= i <= table@.len(),
                        args@.len() == 2,
                        rowsv == rows_view(table@),
                        rowsv.len() == table@.len(),
                        row_opt_view(saved) == orig_rowv,
                        spec_max_rows(evaluator@, g1, orig_rowv, rowsv, args@, 0, Option::<u64>::None)
                            == spec_max_rows(
                            evaluator@,
                            context@.globals,
                            orig_rowv,
                            rowsv,
                            args@,
                            i as int,
                            acc,
                        ),
                    decreases table@.len() - i,
                {
                    proof {
                        lemma_rows_view_index(table@, i as int);
                        lemma_esheight_index(args@, 1);
                    }
                    context.row = Some(Record { fields: duplicate_fields(&table[i].fields) });
                    match evaluator.evaluate_expression(context, &args[1]) {
                        Ok(v) => match v {
                            DataValue::Number(n) => {
                                acc = match acc {
                                    Some(prev) => if crate::numeric::ieee_lt(prev, n) {
                                        Some(n)
                                    } else {
                                        Some(prev)
                                    },
                                    None => Some(n),
                                };
                            },
                            _ => {
                                core::mem::swap(&mut context.row, &mut saved);
                                return Err(
                                    EvaluationError::InvalidArgument(
                                        "expected a number".to_owned(),
                                    ),
                                );
                            },
                        },
                        Err(e) => {
                            core::mem::swap(&mut context.row, &mut saved);
                            return Err(e);
                        },
                    }
                    i = i + 1;
                }
                core::mem::swap(&mut context.row, &mut saved);
                match acc {
                    Some(prev) => Ok(DataValue::Number(prev)),
                    None => Ok(DataValue::Blank),
                }
            },
            _ => {
                let ghost s1 = context@;
                let mut acc: Option<u64> = None;
                let mut i: usize = 0;
                while i < args.len()
                    invariant
                        0 <= i <= args@.len(),
                        spec_max_args(evaluator@, s1, args@, 0, Option::<u64>::None)
                            == spec_max_args(
                            evaluator@,
                            context@,
                            args@,
                            i as int,
                            acc,
                        ),
                    decreases args@.len() - i,
                {
                    proof {
                        lemma_esheight_index(args@, i as int);
                    }
                    match evaluator.evaluate_expression(context, &args[i]) {
                        Ok(v) => match v {
                            DataValue::Number(n) => {
                                acc = match acc {
                                    Some(prev) => if crate::numeric::ieee_lt(prev, n) {
                                        Some(n)
                                    } else {
                                        Some(prev)
                                    },
                                    None => Some(n),
                                };
                            },
                            _ => {
                                return Err(
                                    EvaluationError::InvalidArgument(
                                        "expected a number".to_owned(),
                                    ),
                                );
                            },
                        },
                        Err(e) => {
                            return Err(e);
                        },
                    }
                    i = i + 1;
                }
                match acc {
                    Some(prev) => Ok(DataValue::Number(prev)),
                    None => Ok(DataValue::Blank),
                }
            },
        }
    }
}

} // verus!

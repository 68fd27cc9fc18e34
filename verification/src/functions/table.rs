//! The table built-ins: `Table`, `First`, `Last`, `Index`, `Filter`.
use vstd::prelude::*;

use crate::ast::Expression;
use crate::ast::esheight;
use crate::ast::lemma_esheight_index;
use crate::evaluator::ErrV;
use crate::evaluator::EvalOut;
use crate::evaluator::EvaluationError;
use crate::evaluator::ExpressionEvaluator;
use crate::evaluator::SessView;
use crate::evaluator::Session;
use crate::evaluator::out_matches;
use crate::evaluator::row_opt_view;
use crate::evaluator::spec_eval;
use crate::function_registry::Function;
use crate::models::DataValue;
use crate::models::Record;
use crate::models::Val;
use crate::models::duplicate_fields;
use crate::models::fields_view;
use crate::models::lemma_rows_view_concat;
use crate::models::lemma_rows_view_index;
use crate::models::lemma_rows_view_len;
use crate::models::rows_view;

verus! {

broadcast use vstd::std_specs::vec::group_vec_axioms, vstd::seq::group_seq_axioms;

/// Evaluates the arguments of `Table` from place `i` on: each must be a
/// record (appended) or a table (concatenated).
pub open spec fn spec_table_from(
    fr: Map<Seq<char>, Function>,
    s: SessView,
    args: Seq<Expression>,
    i: int,
    acc: Seq<Seq<(Seq<char>, Val)>>,
) -> EvalOut
    decreases esheight(args), 2int, args.len() - i, 0int,
    when 0 <= i <= args.len()
    via spec_table_from_dec
{
    if i >= args.len() {
        (s, Result::Ok(Val::Tab(acc)))
    } else {
        let (s1, r) = spec_eval(fr, s, args[i]);
        match r {
            Result::Ok(Val::Tab(rs)) => spec_table_from(fr, s1, args, i + 1, acc + rs),
            Result::Ok(Val::Rec(fs)) => spec_table_from(fr, s1, args, i + 1, acc.push(fs)),
            Result::Ok(_) => (
                s1,
                Result::Err(ErrV::InvalidArgument("expected a table or record"@)),
            ),
            Result::Err(er) => (s1, Result::Err(er)),
        }
    }
}

#[via_fn]
proof fn spec_table_from_dec(
    fr: Map<Seq<char>, Function>,
    s: SessView,
    args: Seq<Expression>,
    i: int,
    acc: Seq<Seq<(Seq<char>, Val)>>,
) {
    if 0 <= i < args.len() {
        lemma_esheight_index(args, i);
    }
}

/// What `Table(arg, ...)` yields: the records of all arguments, in order.
pub open spec fn spec_table(fr: Map<Seq<char>, Function>, s: SessView, args: Seq<Expression>) -> EvalOut
    decreases esheight(args), 3int, 0int, 0int,
{
    spec_table_from(fr, s, args, 0, Seq::empty())
}

/// What `First(t)` yields: the first record of a table, Blank when it is
/// empty.
pub open spec fn spec_first(fr: Map<Seq<char>, Function>, s: SessView, args: Seq<Expression>) -> EvalOut
    decreases esheight(args), 3int, 0int, 0int,
    via spec_first_dec
{
    if args.len() != 1 {
        (s, Result::Err(ErrV::InvalidArgumentCount("expected exactly 1 argument"@)))
    } else {
        let (s1, r) = spec_eval(fr, s, args[0]);
        match r {
            Result::Ok(Val::Tab(rs)) => if rs.len() == 0 {
                (s1, Result::Ok(Val::Blank))
            } else {
                (s1, Result::Ok(Val::Rec(rs[0])))
            },
            Result::Ok(_) => (s1, Result::Err(ErrV::InvalidArgument("expected a table"@))),
            Result::Err(er) => (s1, Result::Err(er)),
        }
    }
}

#[via_fn]
proof fn spec_first_dec(fr: Map<Seq<char>, Function>, s: SessView, args: Seq<Expression>) {
    if args.len() == 1 {
        lemma_esheight_index(args, 0);
    }
}

/// What `Last(t)` yields: the last record of a table, Blank when it is
/// empty.
pub open spec fn spec_last(fr: Map<Seq<char>, Function>, s: SessView, args: Seq<Expression>) -> EvalOut
    decreases esheight(args), 3int, 0int, 0int,
    via spec_last_dec
{
    if args.len() != 1 {
        (s, Result::Err(ErrV::InvalidArgumentCount("expected exactly 1 argument"@)))
    } else {
        let (s1, r) = spec_eval(fr, s, args[0]);
        match r {
            Result::Ok(Val::Tab(rs)) => if rs.len() == 0 {
                (s1, Result::Ok(Val::Blank))
            } else {
                (s1, Result::Ok(Val::Rec(rs.last())))
            },
            Result::Ok(_) => (s1, Result::Err(ErrV::InvalidArgument("expected a table"@))),
            Result::Err(er) => (s1, Result::Err(er)),
        }
    }
}

#[via_fn]
proof fn spec_last_dec(fr: Map<Seq<char>, Function>, s: SessView, args: Seq<Expression>) {
    if args.len() == 1 {
        lemma_esheight_index(args, 0);
    }
}

/// What `Index(t, n)` yields: the record at the 0-based place `n`, Blank
/// out of range.
pub open spec fn spec_index(fr: Map<Seq<char>, Function>, s: SessView, args: Seq<Expression>) -> EvalOut
    decreases esheight(args), 3int, 0int, 0int,
    via spec_index_dec
{
    if args.len() != 2 {
        (s, Result::Err(ErrV::InvalidArgumentCount("expected exactly 2 arguments"@)))
    } else {
        let (s1, r1) = spec_eval(fr, s, args[0]);
        match r1 {
            Result::Ok(Val::Tab(rs)) => {
                let (s2, r2) = spec_eval(fr, s1, args[1]);
                match r2 {
                    Result::Ok(Val::Num(n)) => {
                        let k = crate::numeric::num_trunc_usize(n);
                        if k >= rs.len() {
                            (s2, Result::Ok(Val::Blank))
                        } else {
                            (s2, Result::Ok(Val::Rec(rs[k as int])))
                        }
                    },
                    Result::Ok(_) => (s2, Result::Err(ErrV::InvalidArgument("expected a number"@))),
                    Result::Err(er) => (s2, Result::Err(er)),
                }
            },
            Result::Ok(_) => (s1, Result::Err(ErrV::InvalidArgument("expected a table"@))),
            Result::Err(er) => (s1, Result::Err(er)),
        }
    }
}

#[via_fn]
proof fn spec_index_dec(fr: Map<Seq<char>, Function>, s: SessView, args: Seq<Expression>) {
    if args.len() == 2 {
        lemma_esheight_index(args, 0);
        lemma_esheight_index(args, 1);
    }
}

/// Evaluates the predicates of `Filter` for one row, from argument `j`
/// on, in a session whose row overlay is that row: true when all hold,
/// false at the first false (the rest are not evaluated).
pub open spec fn spec_filter_preds(
    fr: Map<Seq<char>, Function>,
    g: Map<Seq<char>, Val>,
    row: Seq<(Seq<char>, Val)>,
    args: Seq<Expression>,
    j: int,
) -> (Map<Seq<char>, Val>, Result<bool, ErrV>)
    decreases esheight(args), 1int, 0int, args.len() - j,
    when 1 <= j <= args.len()
    via spec_filter_preds_dec
{
    if j >= args.len() {
        (g, Result::Ok(true))
    } else {
        let (s1, r) = spec_eval(fr, SessView { globals: g, row: Option::Some(row) }, args[j]);
        match r {
            Result::Ok(Val::Bool(b)) => if b {
                spec_filter_preds(fr, s1.globals, row, args, j + 1)
            } else {
                (s1.globals, Result::Ok(false))
            },
            Result::Ok(_) => (
                s1.globals,
                Result::Err(ErrV::InvalidArgument("expected a boolean"@)),
            ),
            Result::Err(er) => (s1.globals, Result::Err(er)),
        }
    }
}

#[via_fn]
proof fn spec_filter_preds_dec(
    fr: Map<Seq<char>, Function>,
    g: Map<Seq<char>, Val>,
    row: Seq<(Seq<char>, Val)>,
    args: Seq<Expression>,
    j: int,
) {
    if 1 <= j < args.len() {
        lemma_esheight_index(args, j);
    }
}

/// Iterates the rows of `Filter` from place `i` on: a row is kept when
/// every predicate yields true for it; afterwards the original row
/// overlay stands again.
pub open spec fn spec_filter_rows(
    fr: Map<Seq<char>, Function>,
    g: Map<Seq<char>, Val>,
    orig_row: Option<Seq<(Seq<char>, Val)>>,
    rows: Seq<Seq<(Seq<char>, Val)>>,
    args: Seq<Expression>,
    i: int,
    acc: Seq<Seq<(Seq<char>, Val)>>,
) -> EvalOut
    decreases esheight(args), 2int, rows.len() - i, 0int,
    when 0 <= i <= rows.len() && args.len() >= 1
{
    if i >= rows.len() {
        (SessView { globals: g, row: orig_row }, Result::Ok(Val::Tab(acc)))
    } else {
        let (g1, r) = spec_filter_preds(fr, g, rows[i], args, 1);
        match r {
            Result::Ok(keep) => spec_filter_rows(
                fr,
                g1,
                orig_row,
                rows,
                args,
                i + 1,
                if keep {
                    acc.push(rows[i])
                } else {
                    acc
                },
            ),
            Result::Err(er) => (
                SessView { globals: g1, row: orig_row },
                Result::Err(er),
            ),
        }
    }
}

/// What `Filter(t, pred, ...)` yields: the rows of the table for which
/// every predicate, evaluated with that row as the overlay, is true.
pub open spec fn spec_filter(fr: Map<Seq<char>, Function>, s: SessView, args: Seq<Expression>) -> EvalOut
    decreases esheight(args), 3int, 0int, 0int,
    via spec_filter_dec
{
    if args.len() < 2 {
        (s, Result::Err(ErrV::InvalidArgumentCount("expected at least 2 arguments"@)))
    } else {
        let (s1, r) = spec_eval(fr, s, args[0]);
        match r {
            Result::Ok(Val::Tab(rs)) => spec_filter_rows(
                fr,
                s1.globals,
                s1.row,
                rs,
                args,
                0,
                Seq::empty(),
            ),
            Result::Ok(_) => (s1, Result::Err(ErrV::InvalidArgument("expected a table"@))),
            Result::Err(er) => (s1, Result::Err(er)),
        }
    }
}

#[via_fn]
proof fn spec_filter_dec(fr: Map<Seq<char>, Function>, s: SessView, args: Seq<Expression>) {
    if args.len() >= 2 {
        lemma_esheight_index(args, 0);
    }
}

/// The `Table` built-in.
pub struct Table;

impl Table {
    /// The callable itself; it carries no state.
    pub fn new() -> (r: Table) {
        Table
    }

    /// Builds a table from record and table arguments.
    #[verifier::loop_isolation(false)]
    pub fn call(
        &self,
        evaluator: &ExpressionEvaluator,
        context: &mut Session,
        args: &Vec<Expression>,
    ) -> (r: Result<DataValue, EvaluationError>)
        ensures
            out_matches(final(context)@, r, spec_table(evaluator@, old(context)@, args@)),
        decreases esheight(args@), 2int,
    {
        let mut out: Vec<Record> = Vec::new();
        let mut i: usize = 0;
        while i < args.len()
            invariant
                0 <= i <= args@.len(),
                spec_table_from(evaluator@, old(context)@, args@, 0, Seq::empty())
                    == spec_table_from(
                    evaluator@,
                    context@,
                    args@,
                    i as int,
                    rows_view(out@),
                ),
            decreases args@.len() - i,
        {
            proof {
                lemma_esheight_index(args@, i as int);
            }
            match evaluator.evaluate_expression(context, &args[i]) {
                Ok(v) => match v {
                    DataValue::Table(mut t) => {
                        proof {
                            lemma_rows_view_concat(out@, t@);
                        }
                        out.append(&mut t);
                    },
                    DataValue::Record(rec) => {
                        let ghost oldout = out@;
                        out.push(rec);
                        proof {
                            assert(out@.drop_last() =~= oldout);
                        }
                    },
                    _ => {
                        return Err(
                            EvaluationError::InvalidArgument(
                                "expected a table or record".to_owned(),
                            ),
                        );
                    },
                },
                Err(e) => {
                    return Err(e);
                },
            }
            i = i + 1;
        }
        Ok(DataValue::Table(out))
    }
}

/// The `First` built-in.
pub struct First;

impl First {
    /// The callable itself; it carries no state.
    pub fn new() -> (r: First) {
        First
    }

    /// The first record of a table; Blank when it is empty.
    #[verifier::loop_isolation(false)]
    pub fn call(
        &self,
        evaluator: &ExpressionEvaluator,
        context: &mut Session,
        args: &Vec<Expression>,
    ) -> (r: Result<DataValue, EvaluationError>)
        ensures
            out_matches(final(context)@, r, spec_first(evaluator@, old(context)@, args@)),
        decreases esheight(args@), 2int,
    {
        if args.len() != 1 {
            return Err(
                EvaluationError::InvalidArgumentCount("expected exactly 1 argument".to_owned()),
            );
        }
        proof {
            lemma_esheight_index(args@, 0);
        }
        match evaluator.evaluate_expression(context, &args[0]) {
            Ok(v) => match v {
                DataValue::Table(t) => {
                    if t.len() == 0 {
                        proof {
                            lemma_rows_view_len(t@);
                        }
                        Ok(DataValue::Blank)
                    } else {
                        proof {
                            lemma_rows_view_len(t@);
                            lemma_rows_view_index(t@, 0);
                        }
                        Ok(DataValue::Record(Record { fields: duplicate_fields(&t[0].fields) }))
                    }
                },
                _ => Err(EvaluationError::InvalidArgument("expected a table".to_owned())),
            },
            Err(e) => Err(e),
        }
    }
}

/// The `Last` built-in.
pub struct Last;

impl Last {
    /// The callable itself; it carries no state.
    pub fn new() -> (r: Last) {
        Last
    }

    /// The last record of a table; Blank when it is empty.
    #[verifier::loop_isolation(false)]
    pub fn call(
        &self,
        evaluator: &ExpressionEvaluator,
        context: &mut Session,
        args: &Vec<Expression>,
    ) -> (r: Result<DataValue, EvaluationError>)
        ensures
            out_matches(final(context)@, r, spec_last(evaluator@, old(context)@, args@)),
        decreases esheight(args@), 2int,
    {
        if args.len() != 1 {
            return Err(
                EvaluationError::InvalidArgumentCount("expected exactly 1 argument".to_owned()),
            );
        }
        proof {
            lemma_esheight_index(args@, 0);
        }
        match evaluator.evaluate_expression(context, &args[0]) {
            Ok(v) => match v {
                DataValue::Table(t) => {
                    if t.len() == 0 {
                        proof {
                            lemma_rows_view_len(t@);
                        }
                        Ok(DataValue::Blank)
                    } else {
                        proof {
                            lemma_rows_view_len(t@);
                            lemma_rows_view_index(t@, t@.len() - 1);
                        }
                        Ok(
                            DataValue::Record(
                                Record { fields: duplicate_fields(&t[t.len() - 1].fields) },
                            ),
                        )
                    }
                },
                _ => Err(EvaluationError::InvalidArgument("expected a table".to_owned())),
            },
            Err(e) => Err(e),
        }
    }
}

/// The `Index` built-in.
pub struct Index;

impl Index {
    /// The callable itself; it carries no state.
    pub fn new() -> (r: Index) {
        Index
    }

    /// The record at a 0-based place; Blank out of range.
    #[verifier::loop_isolation(false)]
    pub fn call(
        &self,
        evaluator: &ExpressionEvaluator,
        context: &mut Session,
        args: &Vec<Expression>,
    ) -> (r: Result<DataValue, EvaluationError>)
        ensures
            out_matches(final(context)@, r, spec_index(evaluator@, old(context)@, args@)),
        decreases esheight(args@), 2int,
    {
        if args.len() != 2 {
            return Err(
                EvaluationError::InvalidArgumentCount("expected exactly 2 arguments".to_owned()),
            );
        }
        proof {
            lemma_esheight_index(args@, 0);
            lemma_esheight_index(args@, 1);
        }
        let table = match evaluator.evaluate_expression(context, &args[0]) {
            Ok(v) => match v {
                DataValue::Table(t) => t,
                _ => {
                    return Err(EvaluationError::InvalidArgument("expected a table".to_owned()));
                },
            },
            Err(e) => {
                return Err(e);
            },
        };
        let k = match evaluator.evaluate_expression(context, &args[1]) {
            Ok(v) => match v {
                DataValue::Number(n) => crate::numeric::ieee_trunc_usize(n),
                _ => {
                    return Err(EvaluationError::InvalidArgument("expected a number".to_owned()));
                },
            },
            Err(e) => {
                return Err(e);
            },
        };
        proof {
            lemma_rows_view_len(table@);
        }
        if k >= table.len() {
            return Ok(DataValue::Blank);
        }
        proof {
            lemma_rows_view_index(table@, k as int);
        }
        Ok(DataValue::Record(Record { fields: duplicate_fields(&table[k].fields) }))
    }
}

/// The `Filter` built-in.
pub struct Filter;

/// Evaluates every predicate of a `Filter` call for one row: true when
/// all hold, false at the first false.
#[verifier::loop_isolation(false)]
fn filter_row(
    evaluator: &ExpressionEvaluator,
    context: &mut Session,
    args: &Vec<Expression>,
    row: &Record,
) -> (r: Result<bool, EvaluationError>)
    requires
        args@.len() >= 2,
    ensures
        ({
            let (g2, rr) = spec_filter_preds(
                evaluator@,
                old(context)@.globals,
                fields_view(row.fields@),
                args@,
                1,
            );
            &&& final(context)@.globals == g2
            &&& match (r, rr) {
                (Result::Ok(b1), Result::Ok(b2)) => b1 == b2,
                (Result::Err(e), Result::Err(f)) => e@ == f,
                _ => false,
            }
        }),
    decreases esheight(args@), 1int,
{
    let ghost g0 = context@.globals;
    let ghost rowv = fields_view(row.fields@);
    let mut j: usize = 1;
    while j < args.len()
        invariant
            1 <= j <= args@.len(),
            args@.len() >= 2,
            rowv == fields_view(row.fields@),
            spec_filter_preds(evaluator@, g0, rowv, args@, 1) == spec_filter_preds(
                evaluator@,
                context@.globals,
                rowv,
                args@,
                j as int,
            ),
        decreases args@.len() - j,
    {
        proof {
            lemma_esheight_index(args@, j as int);
        }
        context.row = Some(Record { fields: duplicate_fields(&row.fields) });
        match evaluator.evaluate_expression(context, &args[j]) {
            Ok(v) => match v {
                DataValue::Boolean(b) => {
                    if !b {
                        return Ok(false);
                    }
                },
                _ => {
                    return Err(EvaluationError::InvalidArgument("expected a boolean".to_owned()));
                },
            },
            Err(e) => {
                return Err(e);
            },
        }
        j = j + 1;
    }
    Ok(true)
}

impl Filter {
    /// The callable itself; it carries no state.
    pub fn new() -> (r: Filter) {
        Filter
    }

    /// Keeps the rows for which every predicate is true.
    #[verifier::loop_isolation(false)]
    pub fn call(
        &self,
        evaluator: &ExpressionEvaluator,
        context: &mut Session,
        args: &Vec<Expression>,
    ) -> (r: Result<DataValue, EvaluationError>)
        ensures
            out_matches(final(context)@, r, spec_filter(evaluator@, old(context)@, args@)),
        decreases esheight(args@), 2int,
    {
        if args.len() < 2 {
            return Err(
                EvaluationError::InvalidArgumentCount("expected at least 2 arguments".to_owned()),
            );
        }
        proof {
            lemma_esheight_index(args@, 0);
        }
        let table = match evaluator.evaluate_expression(context, &args[0]) {
            Ok(v) => match v {
                DataValue::Table(t) => t,
                _ => {
                    return Err(EvaluationError::InvalidArgument("expected a table".to_owned()));
                },
            },
            Err(e) => {
                return Err(e);
            },
        };
        let ghost g1 = context@.globals;
        let ghost orig_rowv = context@.row;
        let ghost rowsv = rows_view(table@);
        let mut saved: Option<Record> = None;
        core::mem::swap(&mut context.row, &mut saved);
        proof {
            lemma_rows_view_len(table@);
        }
        let mut out: Vec<Record> = Vec::new();
        let mut i: usize = 0;
        while i < table.len()
            invariant
                0 <= i <= table@.len(),
                args@.len() >= 2,
                rowsv == rows_view(table@),
                rowsv.len() == table@.len(),
                row_opt_view(saved) == orig_rowv,
                spec_filter_rows(evaluator@, g1, orig_rowv, rowsv, args@, 0, Seq::empty())
                    == spec_filter_rows(
                    evaluator@,
                    context@.globals,
                    orig_rowv,
                    rowsv,
                    args@,
                    i as int,
                    rows_view(out@),
                ),
            decreases table@.len() - i,
        {
            proof {
                lemma_rows_view_index(table@, i as int);
            }
            match filter_row(evaluator, context, args, &table[i]) {
                Ok(keep) => {
                    if keep {
                        let ghost oldout = out@;
                        out.push(Record { fields: duplicate_fields(&table[i].fields) });
                        proof {
                            assert(out@.drop_last() =~= oldout);
                        }
                    }
                },
                Err(e) => {
                    core::mem::swap(&mut context.row, &mut saved);
                    return Err(e);
                },
            }
            i = i + 1;
        }
        core::mem::swap(&mut context.row, &mut saved);
        Ok(DataValue::Table(out))
    }
}

} // verus!

//! Laws of the language, stated over the same specifications the
//! executable code is proved against.
use vstd::prelude::*;

use crate::ast::Expression;
use crate::ast::Literal;
use crate::ast::UnaryExpression;
use crate::evaluator::ErrV;
use crate::evaluator::SessView;
use crate::evaluator::spec_eval;
use crate::evaluator::spec_eval_pred;
use crate::evaluator::spec_eval_unary;
use crate::evaluator::spec_eval_literal;
use crate::function_registry::Function;
use crate::functions::table::spec_filter;
use crate::functions::table::spec_filter_preds;
use crate::functions::table::spec_filter_rows;
use crate::functions::aggregation::spec_sum_args;
use crate::functions::aggregation::spec_sum_rows;
use crate::models::Val;
use crate::numeric::add_bits;

verus! {

/// Evaluating a boolean literal yields its boolean and changes nothing.
pub proof fn lemma_eval_bool_literal(fr: Map<Seq<char>, Function>, s: SessView, b: bool)
    ensures
        spec_eval(
            fr,
            s,
            Expression::UnaryExpression(UnaryExpression::Literal(Literal::Boolean(b))),
        ) == (s, Result::<Val, ErrV>::Ok(Val::Bool(b))),
{
    let l = Literal::Boolean(b);
    let u = UnaryExpression::Literal(l);
    let e = Expression::UnaryExpression(u);
    assert(spec_eval(fr, s, e) == spec_eval_unary(fr, s, e, u));
    assert(spec_eval_unary(fr, s, e, u) == spec_eval_literal(fr, s, l));
    assert(spec_eval_literal(fr, s, l) == (s, Result::<Val, ErrV>::Ok(Val::Bool(b))));
}


/// Evaluating a number literal yields its number and changes nothing.
pub proof fn lemma_eval_num_literal(fr: Map<Seq<char>, Function>, s: SessView, n: u64)
    ensures
        spec_eval(
            fr,
            s,
            Expression::UnaryExpression(UnaryExpression::Literal(Literal::Number(n))),
        ) == (s, Result::<Val, ErrV>::Ok(Val::Num(n))),
{
    let l = Literal::Number(n);
    let u = UnaryExpression::Literal(l);
    let e = Expression::UnaryExpression(u);
    assert(spec_eval(fr, s, e) == spec_eval_unary(fr, s, e, u));
    assert(spec_eval_unary(fr, s, e, u) == spec_eval_literal(fr, s, l));
    assert(spec_eval_literal(fr, s, l) == (s, Result::<Val, ErrV>::Ok(Val::Num(n))));
}

/// `IsBlank` yields true exactly when its operand's value is Blank, and
/// passes the operand's error through.
pub proof fn lemma_is_blank_tests_blank(fr: Map<Seq<char>, Function>, s: SessView, e: Expression)
    ensures
        ({
            let (s1, r) = spec_eval(fr, s, e);
            let expected = match r {
                Result::<Val, ErrV>::Ok(v) => (s1, Result::<Val, ErrV>::Ok(Val::Bool(v is Blank))),
                Result::<Val, ErrV>::Err(er) => (s1, Result::<Val, ErrV>::Err(er)),
            };
            spec_eval(fr, s, Expression::UnaryExpression(UnaryExpression::IsBlank(Box::new(e))))
                == expected
        }),
{
    let u = UnaryExpression::IsBlank(Box::new(e));
    let eb = Expression::UnaryExpression(u);
    assert(spec_eval(fr, s, eb) == spec_eval_unary(fr, s, eb, u));
}

/// `IsNotBlank(e)` evaluates exactly as `Not(IsBlank(e))` does, result
/// and session alike.
pub proof fn lemma_is_not_blank_is_not_of_is_blank(
    fr: Map<Seq<char>, Function>,
    s: SessView,
    e: Expression,
)
    ensures
        spec_eval(fr, s, Expression::UnaryExpression(UnaryExpression::IsNotBlank(Box::new(e))))
            == spec_eval(
            fr,
            s,
            Expression::UnaryExpression(
                UnaryExpression::Not(
                    Box::new(
                        Expression::UnaryExpression(UnaryExpression::IsBlank(Box::new(e))),
                    ),
                ),
            ),
        ),
{
    let u1 = UnaryExpression::IsNotBlank(Box::new(e));
    let e1 = Expression::UnaryExpression(u1);
    let u3 = UnaryExpression::IsBlank(Box::new(e));
    let e3 = Expression::UnaryExpression(u3);
    let u2 = UnaryExpression::Not(Box::new(e3));
    let e2 = Expression::UnaryExpression(u2);
    assert(spec_eval(fr, s, e1) == spec_eval_unary(fr, s, e1, u1));
    assert(spec_eval(fr, s, e2) == spec_eval_unary(fr, s, e2, u2));
    assert(spec_eval(fr, s, e3) == spec_eval_unary(fr, s, e3, u3));
    let (s1, r) = spec_eval(fr, s, e);
    match r {
        Result::<Val, ErrV>::Ok(v) => {
            assert(spec_eval_unary(fr, s, e3, u3) == (
            s1,
            Result::<Val, ErrV>::Ok(Val::Bool(v is Blank)),
            ));
            assert(spec_eval_pred(fr, s, e3) == (s1, Result::<bool, ErrV>::Ok(v is Blank)));
        },
        Result::<Val, ErrV>::Err(er) => {
            assert(spec_eval_pred(fr, s, e3) == (s1, Result::<bool, ErrV>::Err(er)));
        },
    }
}

/// A `Filter` predicate that is the literal `true` keeps every row from
/// this place on; the predicate that is the literal `false` keeps none.
proof fn lemma_filter_rows_const(
    fr: Map<Seq<char>, Function>,
    g: Map<Seq<char>, Val>,
    orig: Option<Seq<(Seq<char>, Val)>>,
    rows: Seq<Seq<(Seq<char>, Val)>>,
    args: Seq<Expression>,
    i: int,
    acc: Seq<Seq<(Seq<char>, Val)>>,
    b: bool,
)
    requires
        0 <= i <= rows.len(),
        args.len() == 2,
        args[1] == Expression::UnaryExpression(UnaryExpression::Literal(Literal::Boolean(b))),
    ensures
        spec_filter_rows(fr, g, orig, rows, args, i, acc) == (
            SessView { globals: g, row: orig },
            Result::<Val, ErrV>::Ok(
                Val::Tab(
                    if b {
                        acc + rows.skip(i)
                    } else {
                        acc
                    },
                ),
            ),
        ),
    decreases rows.len() - i,
{
    if i >= rows.len() {
        if b {
            assert(acc + rows.skip(i) =~= acc);
        }
    } else {
        lemma_eval_bool_literal(fr, SessView { globals: g, row: Option::Some(rows[i]) }, b);
        assert(spec_filter_preds(fr, g, rows[i], args, 1) == spec_filter_preds_step(
            fr,
            g,
            rows,
            args,
            i,
            b,
        ));
        if b {
            lemma_filter_rows_const(fr, g, orig, rows, args, i + 1, acc.push(rows[i]), b);
            assert(acc.push(rows[i]) + rows.skip(i + 1) =~= acc + rows.skip(i));
        } else {
            lemma_filter_rows_const(fr, g, orig, rows, args, i + 1, acc, b);
        }
    }
}

/// What one constant-predicate check unfolds to.
spec fn spec_filter_preds_step(
    fr: Map<Seq<char>, Function>,
    g: Map<Seq<char>, Val>,
    rows: Seq<Seq<(Seq<char>, Val)>>,
    args: Seq<Expression>,
    i: int,
    b: bool,
) -> (Map<Seq<char>, Val>, Result<bool, ErrV>) {
    if b {
        spec_filter_preds(fr, g, rows[i], args, 2)
    } else {
        (g, Result::Ok(false))
    }
}

/// `Filter(t, true)` yields the table itself; `Filter(t, false)` yields
/// the empty table.  The session stands as it did after the table
/// argument was evaluated.
pub proof fn lemma_filter_constant_predicate(
    fr: Map<Seq<char>, Function>,
    s: SessView,
    args: Seq<Expression>,
    b: bool,
)
    requires
        args.len() == 2,
        args[1] == Expression::UnaryExpression(UnaryExpression::Literal(Literal::Boolean(b))),
        spec_eval(fr, s, args[0]).1 is Ok,
        spec_eval(fr, s, args[0]).1->Ok_0 is Tab,
    ensures
        ({
            let (s1, r) = spec_eval(fr, s, args[0]);
            let rows = r->Ok_0->Tab_0;
            spec_filter(fr, s, args) == (
                s1,
                Result::<Val, ErrV>::Ok(
                    Val::Tab(
                        if b {
                            rows
                        } else {
                            Seq::empty()
                        },
                    ),
                ),
            )
        }),
{
    let (s1, r) = spec_eval(fr, s, args[0]);
    let rows = r->Ok_0->Tab_0;
    lemma_filter_rows_const(fr, s1.globals, s1.row, rows, args, 0, Seq::empty(), b);
    assert(SessView { globals: s1.globals, row: s1.row } == s1);
    if b {
        assert(Seq::<Seq<(Seq<char>, Val)>>::empty() + rows.skip(0) =~= rows);
    }
}

/// `First` yields a table's first row, Blank when it has none; the
/// session stands as the table argument's evaluation left it.
pub proof fn lemma_first_picks_the_first_row(
    fr: Map<Seq<char>, Function>,
    s: SessView,
    args: Seq<Expression>,
)
    requires
        args.len() == 1,
        spec_eval(fr, s, args[0]).1 is Ok,
        spec_eval(fr, s, args[0]).1->Ok_0 is Tab,
    ensures
        ({
            let (s1, r) = spec_eval(fr, s, args[0]);
            let rows = r->Ok_0->Tab_0;
            crate::functions::table::spec_first(fr, s, args) == (
                s1,
                if rows.len() == 0 {
                    Result::<Val, ErrV>::Ok(Val::Blank)
                } else {
                    Result::<Val, ErrV>::Ok(Val::Rec(rows[0]))
                },
            )
        }),
{
}

/// `Last` yields a table's last row, Blank when it has none.
pub proof fn lemma_last_picks_the_last_row(
    fr: Map<Seq<char>, Function>,
    s: SessView,
    args: Seq<Expression>,
)
    requires
        args.len() == 1,
        spec_eval(fr, s, args[0]).1 is Ok,
        spec_eval(fr, s, args[0]).1->Ok_0 is Tab,
    ensures
        ({
            let (s1, r) = spec_eval(fr, s, args[0]);
            let rows = r->Ok_0->Tab_0;
            crate::functions::table::spec_last(fr, s, args) == (
                s1,
                if rows.len() == 0 {
                    Result::<Val, ErrV>::Ok(Val::Blank)
                } else {
                    Result::<Val, ErrV>::Ok(Val::Rec(rows.last()))
                },
            )
        }),
{
}

/// `Index` yields the row at the 0-based place its number argument
/// truncates to, Blank out of range.
pub proof fn lemma_index_picks_by_place(
    fr: Map<Seq<char>, Function>,
    s: SessView,
    args: Seq<Expression>,
)
    requires
        args.len() == 2,
        spec_eval(fr, s, args[0]).1 is Ok,
        spec_eval(fr, s, args[0]).1->Ok_0 is Tab,
        spec_eval(fr, spec_eval(fr, s, args[0]).0, args[1]).1 is Ok,
        spec_eval(fr, spec_eval(fr, s, args[0]).0, args[1]).1->Ok_0 is Num,
    ensures
        ({
            let (s1, r1) = spec_eval(fr, s, args[0]);
            let rows = r1->Ok_0->Tab_0;
            let (s2, r2) = spec_eval(fr, s1, args[1]);
            let k = crate::numeric::num_trunc_usize(r2->Ok_0->Num_0);
            crate::functions::table::spec_index(fr, s, args) == (
                s2,
                if k >= rows.len() {
                    Result::<Val, ErrV>::Ok(Val::Blank)
                } else {
                    Result::<Val, ErrV>::Ok(Val::Rec(rows[k as int]))
                },
            )
        }),
{
}


/// The fold both `Sum` shapes share: IEEE-754 addition, left to right,
/// from the accumulator.
pub open spec fn sum_fold(ns: Seq<u64>, acc: u64) -> u64
    decreases ns.len(),
{
    if ns.len() == 0 {
        acc
    } else {
        sum_fold(ns.skip(1), add_bits(acc, ns[0]))
    }
}

/// The tabular `Sum` folds the projected numbers: when the projection
/// yields each row's number without touching the session, the rows from
/// place `i` on fold onto the accumulator, and the original row overlay
/// stands again afterwards.
pub proof fn lemma_sum_rows_folds(
    fr: Map<Seq<char>, Function>,
    g: Map<Seq<char>, Val>,
    orig: Option<Seq<(Seq<char>, Val)>>,
    rows: Seq<Seq<(Seq<char>, Val)>>,
    args: Seq<Expression>,
    ns: Seq<u64>,
    i: int,
    acc: u64,
)
    requires
        args.len() == 2,
        ns.len() == rows.len(),
        0 <= i <= rows.len(),
        forall|q: int|
            0 <= q < rows.len() ==> #[trigger] spec_eval(
                fr,
                SessView { globals: g, row: Option::Some(rows[q]) },
                args[1],
            ) == (
                SessView { globals: g, row: Option::Some(rows[q]) },
                Result::<Val, ErrV>::Ok(Val::Num(ns[q])),
            ),
    ensures
        spec_sum_rows(fr, g, orig, rows, args, i, acc) == (
            SessView { globals: g, row: orig },
            Result::<Val, ErrV>::Ok(Val::Num(sum_fold(ns.skip(i), acc))),
        ),
    decreases rows.len() - i,
{
    if i < rows.len() {
        assert(spec_eval(fr, SessView { globals: g, row: Option::Some(rows[i]) }, args[1]) == (
            SessView { globals: g, row: Option::Some(rows[i]) },
            Result::<Val, ErrV>::Ok(Val::Num(ns[i])),
        ));
        lemma_sum_rows_folds(fr, g, orig, rows, args, ns, i + 1, add_bits(acc, ns[i]));
        assert(ns.skip(i)[0] == ns[i]);
        assert(ns.skip(i).skip(1) =~= ns.skip(i + 1));
        assert(sum_fold(ns.skip(i), acc) == sum_fold(ns.skip(i + 1), add_bits(acc, ns[i])));
    } else {
        assert(ns.skip(i).len() == 0);
    }
}

/// The variadic `Sum` folds the same numbers: when the arguments are the
/// number literals of `ns`, the arguments from place `i` on fold onto the
/// accumulator and the session is untouched.
pub proof fn lemma_sum_args_folds(
    fr: Map<Seq<char>, Function>,
    s: SessView,
    args: Seq<Expression>,
    ns: Seq<u64>,
    i: int,
    acc: u64,
)
    requires
        args.len() == ns.len(),
        0 <= i <= args.len(),
        forall|q: int|
            0 <= q < args.len() ==> #[trigger] args[q] == Expression::UnaryExpression(
                UnaryExpression::Literal(Literal::Number(ns[q])),
            ),
    ensures
        spec_sum_args(fr, s, args, i, acc) == (
            s,
            Result::<Val, ErrV>::Ok(Val::Num(sum_fold(ns.skip(i), acc))),
        ),
    decreases args.len() - i,
{
    if i < args.len() {
        lemma_eval_num_literal(fr, s, ns[i]);
        lemma_sum_args_folds(fr, s, args, ns, i + 1, add_bits(acc, ns[i]));
        assert(ns.skip(i)[0] == ns[i]);
        assert(ns.skip(i).skip(1) =~= ns.skip(i + 1));
    } else {
        assert(ns.skip(i).len() == 0);
    }
}

/// `Sum(table, x)` equals `Sum` of the x-values written out: with the
/// same numbers behind them, the tabular and the variadic shape both
/// yield the fold of those numbers from zero.
pub proof fn lemma_sum_shapes_agree(
    fr: Map<Seq<char>, Function>,
    g: Map<Seq<char>, Val>,
    orig: Option<Seq<(Seq<char>, Val)>>,
    rows: Seq<Seq<(Seq<char>, Val)>>,
    targs: Seq<Expression>,
    s: SessView,
    vargs: Seq<Expression>,
    ns: Seq<u64>,
)
    requires
        targs.len() == 2,
        ns.len() == rows.len(),
        forall|q: int|
            0 <= q < rows.len() ==> #[trigger] spec_eval(
                fr,
                SessView { globals: g, row: Option::Some(rows[q]) },
                targs[1],
            ) == (
                SessView { globals: g, row: Option::Some(rows[q]) },
                Result::<Val, ErrV>::Ok(Val::Num(ns[q])),
            ),
        vargs.len() == ns.len(),
        forall|q: int|
            0 <= q < vargs.len() ==> #[trigger] vargs[q] == Expression::UnaryExpression(
                UnaryExpression::Literal(Literal::Number(ns[q])),
            ),
    ensures
        spec_sum_rows(fr, g, orig, rows, targs, 0, 0).1 == spec_sum_args(fr, s, vargs, 0, 0).1,
        spec_sum_rows(fr, g, orig, rows, targs, 0, 0).1 == Result::<Val, ErrV>::Ok(
            Val::Num(sum_fold(ns, 0)),
        ),
{
    lemma_sum_rows_folds(fr, g, orig, rows, targs, ns, 0, 0);
    lemma_sum_args_folds(fr, s, vargs, ns, 0, 0);
    assert(ns.skip(0) =~= ns);
}

/// Semicolons at the top level are separators: a program with no
/// trailing semicolon parses to the same expressions when a single one
/// is appended.
pub proof fn lemma_trailing_semicolon(s: Seq<char>)
    requires
        crate::lexer::p_program_full(s) is Some,
        s.len() == 0 || s.last() != ';',
    ensures
        crate::lexer::spec_parse(s) == crate::lexer::p_program_full(s),
        crate::lexer::spec_parse(s.push(';')) == crate::lexer::p_program_full(s),
{
    reveal(crate::lexer::spec_parse);
    assert(s.push(';').drop_last() =~= s);
    assert(s.push(';').last() == ';');
}

} // verus!

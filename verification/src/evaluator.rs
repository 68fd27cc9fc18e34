//! The tree-walking evaluator: sessions of named variables, the error
//! taxonomy, and the specification the executable evaluator is proved
//! against.
use vstd::prelude::*;

use crate::ast::BinaryExpression;
use crate::ast::Expression;
use crate::ast::Literal;
use crate::ast::UnaryExpression;
use crate::ast::eheight;
use crate::ast::Context;
use crate::ast::FunctionExpression;
use crate::ast::esheight;
use crate::ast::fsheight;
use crate::ast::lemma_fsheight_index;
use crate::ast::lemma_rsheight_index;
use crate::ast::lheight;
use crate::ast::rsheight;
use crate::function_registry::Function;
use crate::function_registry::FunctionRegistry;
use crate::models::DataValue;
use crate::models::Record;
use crate::models::Val;
use crate::models::dv_view;
use crate::models::fields_view;
use crate::models::lemma_fields_view_index;
use crate::models::lemma_fields_view_len;
use crate::models::opts_view;
use crate::models::rows_view;
use crate::models::val_eq;
use crate::models::val_equal;
use crate::numeric::add_bits;
use crate::numeric::div_bits;
use crate::numeric::mul_bits;
use crate::numeric::num_le;
use crate::numeric::num_lt;
use crate::numeric::num_text;
use crate::numeric::num_to_text;
use crate::numeric::rem_bits;
use crate::numeric::sub_bits;
use crate::textops::lower_of;
use crate::textops::text_contains;
use crate::textops::bool_to_text;
use crate::textops::text_lower;
use crate::textops::contains_chars;

verus! {

broadcast use vstd::std_specs::vec::group_vec_axioms, vstd::seq::group_seq_axioms;

/// What can go wrong: parsing, name resolution, and argument shape or
/// count; type errors of the containment operators.
#[derive(Debug)]
pub enum EvaluationError {
    DivideByZero,
    InvalidType,
    UnknownIdentifier(String),
    UnknownFunction(String),
    InvalidArgument(String),
    InvalidArgumentCount(String),
    ParseError(String),
}

/// The mirror of an evaluation error, its message as a character
/// sequence.
pub enum ErrV {
    DivideByZero,
    InvalidType,
    UnknownIdentifier(Seq<char>),
    UnknownFunction(Seq<char>),
    InvalidArgument(Seq<char>),
    InvalidArgumentCount(Seq<char>),
    ParseError(Seq<char>),
}

/// The mirror of an error value.
pub open spec fn err_view(e: EvaluationError) -> ErrV {
    match e {
        EvaluationError::DivideByZero => ErrV::DivideByZero,
        EvaluationError::InvalidType => ErrV::InvalidType,
        EvaluationError::UnknownIdentifier(s) => ErrV::UnknownIdentifier(s@),
        EvaluationError::UnknownFunction(s) => ErrV::UnknownFunction(s@),
        EvaluationError::InvalidArgument(s) => ErrV::InvalidArgument(s@),
        EvaluationError::InvalidArgumentCount(s) => ErrV::InvalidArgumentCount(s@),
        EvaluationError::ParseError(s) => ErrV::ParseError(s@),
    }
}

impl View for EvaluationError {
    type V = ErrV;

    open spec fn view(&self) -> ErrV {
        err_view(*self)
    }
}

/// The named variables of a session; a later binding of a name shadows an
/// earlier one.
#[derive(Debug)]
pub struct GlobalVariables {
    entries: Vec<(String, DataValue)>,
}

/// The bindings as a mapping.
pub open spec fn vars_map(es: Seq<(String, DataValue)>) -> Map<Seq<char>, Val>
    decreases es,
{
    if es.len() == 0 {
        Map::empty()
    } else {
        vars_map(es.drop_last()).insert(es.last().0@, dv_view(es.last().1))
    }
}

/// The newest binding of a name, if any.
pub open spec fn vars_lookup(es: Seq<(String, DataValue)>, name: Seq<char>) -> Option<Val>
    decreases es,
{
    if es.len() == 0 {
        Option::None
    } else if es.last().0@ == name {
        Option::Some(dv_view(es.last().1))
    } else {
        vars_lookup(es.drop_last(), name)
    }
}

/// The newest binding is exactly what the mapping holds.
pub proof fn lemma_vars_lookup_map(es: Seq<(String, DataValue)>, name: Seq<char>)
    ensures
        match vars_lookup(es, name) {
            Option::Some(v) => vars_map(es).contains_key(name) && vars_map(es)[name] == v,
            Option::None => !vars_map(es).contains_key(name),
        },
    decreases es,
{
    if es.len() > 0 {
        lemma_vars_lookup_map(es.drop_last(), name);
    }
}

/// Entry lists whose keys are the same and whose values mirror alike map
/// alike.
pub proof fn lemma_vars_map_pointwise(a: Seq<(String, DataValue)>, b: Seq<(String, DataValue)>)
    requires
        a.len() == b.len(),
        forall|j: int|
            0 <= j < a.len() ==> (#[trigger] a[j]).0 == b[j].0 && dv_view(a[j].1) == dv_view(
                b[j].1,
            ),
    ensures
        vars_map(a) == vars_map(b),
    decreases a,
{
    if a.len() > 0 {
        assert(a.drop_last().len() == b.drop_last().len());
        assert forall|j: int| 0 <= j < a.drop_last().len() implies (#[trigger] a.drop_last()[j]).0
            == b.drop_last()[j].0 && dv_view(a.drop_last()[j].1) == dv_view(b.drop_last()[j].1) by {
            assert(a.drop_last()[j] == a[j]);
            assert(b.drop_last()[j] == b[j]);
        }
        lemma_vars_map_pointwise(a.drop_last(), b.drop_last());
    }
}

impl GlobalVariables {
    /// No bindings.
    pub fn new() -> (r: GlobalVariables)
        ensures
            r@ == Map::<Seq<char>, Val>::empty(),
    {
        GlobalVariables { entries: Vec::new() }
    }

    /// A copy holding the same bindings.
    pub fn duplicate(&self) -> (r: GlobalVariables)
        ensures
            r@ == self@,
    {
        let entries = crate::models::duplicate_fields(&self.entries);
        proof {
            lemma_vars_map_pointwise(entries@, self.entries@);
        }
        GlobalVariables { entries }
    }

    /// Binds `name`, shadowing any earlier binding.
    pub fn insert(&mut self, name: &str, value: DataValue)
        ensures
            final(self)@ == old(self)@.insert(name@, dv_view(value)),
    {
        self.entries.push((name.to_owned(), value));
        proof {
            assert(self.entries@.drop_last() =~= old(self).entries@);
        }
    }

    /// The newest binding of `name`, if any.
    #[verifier::loop_isolation(false)]
    pub fn get(&self, name: &str) -> (r: Option<&DataValue>)
        ensures
            match r {
                Option::Some(v) => self@.contains_key(name@) && self@[name@] == dv_view(*v),
                Option::None => !self@.contains_key(name@),
            },
    {
        let n = self.entries.len();
        let mut i: usize = n;
        proof {
            assert(self.entries@.subrange(0, n as int) =~= self.entries@);
        }
        while i > 0
            invariant
                0 <= i <= n,
                n == self.entries@.len(),
                vars_lookup(self.entries@, name@) == vars_lookup(
                    self.entries@.subrange(0, i as int),
                    name@,
                ),
            decreases i,
        {
            i = i - 1;
            proof {
                assert(self.entries@.subrange(0, i + 1).last() == self.entries@[i as int]);
                assert(self.entries@.subrange(0, i + 1).drop_last() =~= self.entries@.subrange(
                    0,
                    i as int,
                ));
            }
            if crate::textops::str_same(self.entries[i].0.as_str(), name) {
                proof {
                    lemma_vars_lookup_map(self.entries@, name@);
                }
                return Some(&self.entries[i].1);
            }
        }
        proof {
            assert(self.entries@.subrange(0, 0).len() == 0);
            lemma_vars_lookup_map(self.entries@, name@);
        }
        None
    }
}

impl View for GlobalVariables {
    type V = Map<Seq<char>, Val>;

    closed spec fn view(&self) -> Map<Seq<char>, Val> {
        vars_map(self.entries@)
    }
}

/// The mirror of an optional row overlay.
pub open spec fn row_opt_view(r: Option<Record>) -> Option<Seq<(Seq<char>, Val)>> {
    match r {
        Option::Some(rec) => Option::Some(fields_view(rec.fields@)),
        Option::None => Option::None,
    }
}

/// The mirror of a session: its global bindings as a mapping, and the row
/// overlay, when one is installed, as the row's fields.
pub struct SessView {
    pub globals: Map<Seq<char>, Val>,
    pub row: Option<Seq<(Seq<char>, Val)>>,
}

/// A session: global variables plus an optional row overlay installed by
/// tabular functions while they iterate rows.
#[derive(Debug)]
pub struct Session {
    pub globals: GlobalVariables,
    pub row: Option<Record>,
}

impl View for Session {
    type V = SessView;

    open spec fn view(&self) -> SessView {
        SessView { globals: self.globals@, row: row_opt_view(self.row) }
    }
}

/// The first field of the given name, if any.
pub open spec fn row_lookup(fs: Seq<(Seq<char>, Val)>, name: Seq<char>) -> Option<Val>
    decreases fs.len(),
{
    if fs.len() == 0 {
        Option::None
    } else if fs[0].0 == name {
        Option::Some(fs[0].1)
    } else {
        row_lookup(fs.skip(1), name)
    }
}

/// Name resolution: the row overlay first, the globals second.
pub open spec fn sess_lookup(s: SessView, name: Seq<char>) -> Option<Val> {
    let from_row = match s.row {
        Option::Some(fs) => row_lookup(fs, name),
        Option::None => Option::None,
    };
    match from_row {
        Option::Some(v) => Option::Some(v),
        Option::None => if s.globals.contains_key(name) {
            Option::Some(s.globals[name])
        } else {
            Option::None
        },
    }
}

impl Session {
    /// An empty session: no variables, no row overlay.
    pub fn new() -> (r: Session)
        ensures
            r@.globals == Map::<Seq<char>, Val>::empty(),
            r@.row is None,
    {
        Session { globals: GlobalVariables::new(), row: None }
    }

    /// Binds a global variable, shadowing any earlier binding of the
    /// name; the row overlay is read-only.
    pub fn set_variable(&mut self, name: &str, value: DataValue)
        ensures
            final(self)@.globals == old(self)@.globals.insert(name@, dv_view(value)),
            final(self)@.row == old(self)@.row,
    {
        self.globals.insert(name, value);
    }

    /// Resolves a name: the row overlay first, the globals second.
    #[verifier::loop_isolation(false)]
    pub fn get_variable(&self, name: &str) -> (r: Option<&DataValue>)
        ensures
            match r {
                Option::Some(v) => sess_lookup(self@, name@) == Option::Some(dv_view(*v)),
                Option::None => sess_lookup(self@, name@) is None,
            },
    {
        match &self.row {
            Some(rec) => {
                let ghost fv = fields_view(rec.fields@);
                proof {
                    lemma_fields_view_len(rec.fields@);
                    assert(fv.skip(0) =~= fv);
                }
                let n = rec.fields.len();
                let mut i: usize = 0;
                while i < n
                    invariant
                        0 <= i <= n,
                        n == rec.fields@.len(),
                        fv == fields_view(rec.fields@),
                        fv.len() == n,
                        row_lookup(fv, name@) == row_lookup(fv.skip(i as int), name@),
                    decreases n - i,
                {
                    proof {
                        lemma_fields_view_index(rec.fields@, i as int);
                        assert(fv.skip(i as int)[0] == fv[i as int]);
                        assert(fv.skip(i as int).skip(1) =~= fv.skip(i + 1));
                    }
                    if crate::textops::str_same(rec.fields[i].0.as_str(), name) {
                        return Some(&rec.fields[i].1);
                    }
                    i = i + 1;
                }
                proof {
                    assert(fv.skip(n as int).len() == 0);
                }
                self.globals.get(name)
            },
            None => self.globals.get(name),
        }
    }

    /// A fresh session whose globals are those of `outer` and whose row
    /// overlay is `record`; tabular functions use this shape of session
    /// for each row.
    pub fn from_record_with_context(record: &Record, outer: &Session) -> (r: Session)
        ensures
            r@.globals == outer@.globals,
            r@.row == Option::Some(fields_view(record.fields@)),
    {
        let fields = crate::models::duplicate_fields(&record.fields);
        Session { globals: outer.globals.duplicate(), row: Some(Record { fields }) }
    }

    /// Replaces all global bindings at once.
    pub fn replace_variables(&mut self, new_data: GlobalVariables)
        ensures
            final(self)@.globals == new_data@,
            final(self)@.row == old(self)@.row,
    {
        self.globals = new_data;
    }

    /// A copy of the global bindings.
    pub fn clone_variables(&self) -> (r: GlobalVariables)
        ensures
            r@ == self@.globals,
    {
        self.globals.duplicate()
    }
}

/// What one evaluation step yields: the session as it stands afterwards,
/// and the value or the error.
pub type EvalOut = (SessView, Result<Val, ErrV>);

/// The executable outcome `r` with session `sv` realizes the specified
/// outcome `out`.
pub open spec fn out_matches(sv: SessView, r: Result<DataValue, EvaluationError>, out: EvalOut) -> bool {
    &&& out.0 == sv
    &&& match (r, out.1) {
        (Result::Ok(v), Result::Ok(w)) => dv_view(v) == w,
        (Result::Err(e), Result::Err(f)) => err_view(e) == f,
        _ => false,
    }
}

/// What evaluating an expression yields: a value or an error, and the
/// session as the expression's `Set` calls leave it.
pub open spec fn spec_eval(fr: Map<Seq<char>, Function>, s: SessView, e: Expression) -> EvalOut
    decreases eheight(e), 4int, 0int, 0int,
{
    match e {
        Expression::UnaryExpression(u) => spec_eval_unary(fr, s, e, u),
        Expression::BinaryExpression(b) => spec_eval_binary(fr, s, e, b),
        Expression::FunctionExpression(f) => {
            if fr.contains_key(f.name@) {
                crate::functions::spec_call(fr, s, fr[f.name@], f.args@)
            } else {
                (s, Result::Err(ErrV::UnknownFunction(f.name@)))
            }
        },
    }
}

/// What evaluating an expression as a predicate yields: its boolean
/// value, with any non-boolean result read as false.
pub open spec fn spec_eval_pred(fr: Map<Seq<char>, Function>, s: SessView, e: Expression) -> (
    SessView,
    Result<bool, ErrV>,
)
    decreases eheight(e), 5int, 0int, 0int,
{
    let (s1, r) = spec_eval(fr, s, e);
    match r {
        Result::Ok(v) => match v {
            Val::Bool(b) => (s1, Result::Ok(b)),
            _ => (s1, Result::Ok(false)),
        },
        Result::Err(er) => (s1, Result::Err(er)),
    }
}

/// The message of a property form's error: the context is unresolved.
pub open spec fn property_message(c: crate::ast::Context) -> Seq<char> {
    match c {
        crate::ast::Context::Parent => "the Parent context is not available"@,
        crate::ast::Context::Self_ => "the Self context is not available"@,
        crate::ast::Context::ThisItem => "the ThisItem context is not available"@,
        crate::ast::Context::ThisRecord => "the ThisRecord context is not available"@,
    }
}

/// What evaluating a unary form yields.  `e` is the form itself as an
/// expression, `u` its payload.
pub open spec fn spec_eval_unary(
    fr: Map<Seq<char>, Function>,
    s: SessView,
    e: Expression,
    u: UnaryExpression,
) -> EvalOut
    decreases eheight(e), 3int, 0int, 0int,
    when e == Expression::UnaryExpression(u)
{
    match u {
        UnaryExpression::Not(sub) => {
            let (s1, r) = spec_eval_pred(fr, s, *sub);
            match r {
                Result::Ok(b) => (s1, Result::Ok(Val::Bool(!b))),
                Result::Err(er) => (s1, Result::Err(er)),
            }
        },
        UnaryExpression::IsBlank(sub) => {
            let (s1, r) = spec_eval(fr, s, *sub);
            match r {
                Result::Ok(v) => (s1, Result::Ok(Val::Bool(v is Blank))),
                Result::Err(er) => (s1, Result::Err(er)),
            }
        },
        UnaryExpression::IsNotBlank(sub) => {
            let (s1, r) = spec_eval(fr, s, *sub);
            match r {
                Result::Ok(v) => (s1, Result::Ok(Val::Bool(!(v is Blank)))),
                Result::Err(er) => (s1, Result::Err(er)),
            }
        },
        UnaryExpression::Literal(l) => spec_eval_literal(fr, s, l),
        UnaryExpression::Property { context, key } => (
            s,
            Result::Err(ErrV::InvalidArgument(property_message(context))),
        ),
        UnaryExpression::Identifier(name) => match sess_lookup(s, name@) {
            Option::Some(v) => (s, Result::Ok(v)),
            Option::None => (s, Result::Err(ErrV::UnknownIdentifier(name@))),
        },
        UnaryExpression::Parameter(name) => match sess_lookup(s, name@) {
            Option::Some(v) => (s, Result::Ok(v)),
            Option::None => (s, Result::Err(ErrV::UnknownIdentifier(name@))),
        },
        UnaryExpression::Alias { source, alias } => spec_eval(fr, s, *source),
    }
}

/// What evaluating a literal yields; record and table literals evaluate
/// their embedded field expressions now.
pub open spec fn spec_eval_literal(fr: Map<Seq<char>, Function>, s: SessView, l: Literal) -> EvalOut
    decreases lheight(l), 3int, 0int, 0int,
{
    match l {
        Literal::Date(d) => (s, Result::Ok(Val::Date(d))),
        Literal::Number(b) => (s, Result::Ok(Val::Num(b))),
        Literal::Boolean(b) => (s, Result::Ok(Val::Bool(b))),
        Literal::OptionSet(o) => (s, Result::Ok(Val::Opt(opts_view(o.options@)))),
        Literal::Text(t) => (s, Result::Ok(Val::Text(t@))),
        Literal::Image(t) => (s, Result::Ok(Val::Image(t@))),
        Literal::Hyperlink(t) => (s, Result::Ok(Val::Link(t@))),
        Literal::Media(t) => (s, Result::Ok(Val::Media(t@))),
        Literal::Record(r) => {
            let (s1, fsr) = spec_fields_from(fr, s, r.fields@, 0, Seq::empty());
            match fsr {
                Result::Ok(fs) => (s1, Result::Ok(Val::Rec(fs))),
                Result::Err(er) => (s1, Result::Err(er)),
            }
        },
        Literal::Table(t) => {
            let (s1, rsr) = spec_rows_from(fr, s, t@, 0, Seq::empty());
            match rsr {
                Result::Ok(rs) => (s1, Result::Ok(Val::Tab(rs))),
                Result::Err(er) => (s1, Result::Err(er)),
            }
        },
        Literal::Blank => (s, Result::Ok(Val::Blank)),
    }
}

/// Evaluates a record literal's fields from place `i` on, appending to
/// the fields already evaluated.
pub open spec fn spec_fields_from(
    fr: Map<Seq<char>, Function>,
    s: SessView,
    fs: Seq<(String, Expression)>,
    i: int,
    acc: Seq<(Seq<char>, Val)>,
) -> (SessView, Result<Seq<(Seq<char>, Val)>, ErrV>)
    decreases fsheight(fs), 2int, fs.len() - i, 0int,
    when 0 <= i <= fs.len()
    via spec_fields_from_dec
{
    if i >= fs.len() {
        (s, Result::Ok(acc))
    } else {
        let (s1, r) = spec_eval(fr, s, fs[i].1);
        match r {
            Result::Ok(v) => spec_fields_from(fr, s1, fs, i + 1, acc.push((fs[i].0@, v))),
            Result::Err(er) => (s1, Result::Err(er)),
        }
    }
}

#[via_fn]
proof fn spec_fields_from_dec(
    fr: Map<Seq<char>, Function>,
    s: SessView,
    fs: Seq<(String, Expression)>,
    i: int,
    acc: Seq<(Seq<char>, Val)>,
) {
    if 0 <= i < fs.len() {
        lemma_fsheight_index(fs, i);
    }
}

/// Evaluates a table literal's rows from place `i` on, appending to the
/// rows already evaluated.
pub open spec fn spec_rows_from(
    fr: Map<Seq<char>, Function>,
    s: SessView,
    rs: Seq<crate::ast::Record>,
    i: int,
    acc: Seq<Seq<(Seq<char>, Val)>>,
) -> (SessView, Result<Seq<Seq<(Seq<char>, Val)>>, ErrV>)
    decreases rsheight(rs), 2int, rs.len() - i, 0int,
    when 0 <= i <= rs.len()
    via spec_rows_from_dec
{
    if i >= rs.len() {
        (s, Result::Ok(acc))
    } else {
        let (s1, r) = spec_fields_from(fr, s, rs[i].fields@, 0, Seq::empty());
        match r {
            Result::Ok(fields) => spec_rows_from(fr, s1, rs, i + 1, acc.push(fields)),
            Result::Err(er) => (s1, Result::Err(er)),
        }
    }
}

#[via_fn]
proof fn spec_rows_from_dec(
    fr: Map<Seq<char>, Function>,
    s: SessView,
    rs: Seq<crate::ast::Record>,
    i: int,
    acc: Seq<Seq<(Seq<char>, Val)>>,
) {
    if 0 <= i < rs.len() {
        lemma_rsheight_index(rs, i);
    }
}

/// What evaluating a binary operator yields.  `e` is the node itself as
/// an expression, `b` its payload.
pub open spec fn spec_eval_binary(
    fr: Map<Seq<char>, Function>,
    s: SessView,
    e: Expression,
    b: BinaryExpression,
) -> EvalOut
    decreases eheight(e), 3int, 0int, 0int,
    when e == Expression::BinaryExpression(b)
{
    match b {
        BinaryExpression::And(l, r) => {
            let (s1, p1) = spec_eval_pred(fr, s, *l);
            match p1 {
                Result::Ok(b1) => if !b1 {
                    (s1, Result::Ok(Val::Bool(false)))
                } else {
                    let (s2, p2) = spec_eval_pred(fr, s1, *r);
                    match p2 {
                        Result::Ok(b2) => (s2, Result::Ok(Val::Bool(b2))),
                        Result::Err(er) => (s2, Result::Err(er)),
                    }
                },
                Result::Err(er) => (s1, Result::Err(er)),
            }
        },
        BinaryExpression::Or(l, r) => {
            let (s1, p1) = spec_eval_pred(fr, s, *l);
            match p1 {
                Result::Ok(b1) => if b1 {
                    (s1, Result::Ok(Val::Bool(true)))
                } else {
                    let (s2, p2) = spec_eval_pred(fr, s1, *r);
                    match p2 {
                        Result::Ok(b2) => (s2, Result::Ok(Val::Bool(b2))),
                        Result::Err(er) => (s2, Result::Err(er)),
                    }
                },
                Result::Err(er) => (s1, Result::Err(er)),
            }
        },
        BinaryExpression::Eq(l, r) => spec_eval_two(fr, s, e, *l, *r, BinOp::EqOp),
        BinaryExpression::Ne(l, r) => spec_eval_two(fr, s, e, *l, *r, BinOp::NeOp),
        BinaryExpression::Lt(l, r) => spec_eval_two(fr, s, e, *l, *r, BinOp::LtOp),
        BinaryExpression::Le(l, r) => spec_eval_two(fr, s, e, *l, *r, BinOp::LeOp),
        BinaryExpression::Gt(l, r) => spec_eval_two(fr, s, e, *l, *r, BinOp::GtOp),
        BinaryExpression::Ge(l, r) => spec_eval_two(fr, s, e, *l, *r, BinOp::GeOp),
        BinaryExpression::In(l, r, exact) => spec_eval_two(
            fr,
            s,
            e,
            *l,
            *r,
            if exact {
                BinOp::ExactInOp
            } else {
                BinOp::InOp
            },
        ),
        BinaryExpression::Add(l, r) => spec_eval_two(fr, s, e, *l, *r, BinOp::AddOp),
        BinaryExpression::Subtract(l, r) => spec_eval_two(fr, s, e, *l, *r, BinOp::SubOp),
        BinaryExpression::Multiply(l, r) => spec_eval_two(fr, s, e, *l, *r, BinOp::MulOp),
        BinaryExpression::Divide(l, r) => spec_eval_two(fr, s, e, *l, *r, BinOp::DivOp),
        BinaryExpression::Modulo(l, r) => spec_eval_two(fr, s, e, *l, *r, BinOp::ModOp),
        BinaryExpression::Exponent(l, r) => spec_eval_two(fr, s, e, *l, *r, BinOp::ExpOp),
    }
}

/// The binary operators that evaluate both operands before combining
/// them.
#[derive(Clone, Copy)]
pub enum BinOp {
    EqOp,
    NeOp,
    LtOp,
    LeOp,
    GtOp,
    GeOp,
    InOp,
    ExactInOp,
    AddOp,
    SubOp,
    MulOp,
    DivOp,
    ModOp,
    ExpOp,
}

/// Evaluates both operands in order, then combines their values.
pub open spec fn spec_eval_two(
    fr: Map<Seq<char>, Function>,
    s: SessView,
    e: Expression,
    l: Expression,
    r: Expression,
    op: BinOp,
) -> EvalOut
    decreases eheight(e), 2int, 0int, 0int,
    when eheight(l) < eheight(e) && eheight(r) < eheight(e)
{
    let (s1, r1) = spec_eval(fr, s, l);
    match r1 {
        Result::Ok(v1) => {
            let (s2, r2) = spec_eval(fr, s1, r);
            match r2 {
                Result::Ok(v2) => (s2, spec_combine(v1, v2, op)),
                Result::Err(er) => (s2, Result::Err(er)),
            }
        },
        Result::Err(er) => (s1, Result::Err(er)),
    }
}

/// What a binary operator yields on two values: equality by the
/// language's equality, order only on numbers and dates, arithmetic on
/// numbers with text concatenation for `+`, containment on text.
pub open spec fn spec_combine(v1: Val, v2: Val, op: BinOp) -> Result<Val, ErrV> {
    match op {
        BinOp::EqOp => Result::Ok(Val::Bool(val_eq(v1, v2))),
        BinOp::NeOp => Result::Ok(Val::Bool(!val_eq(v1, v2))),
        BinOp::LtOp => Result::Ok(
            Val::Bool(
                match (v1, v2) {
                    (Val::Num(a), Val::Num(b)) => num_lt(a, b),
                    (Val::Date(a), Val::Date(b)) => crate::models::date_key(a)
                        < crate::models::date_key(b),
                    _ => false,
                },
            ),
        ),
        BinOp::LeOp => Result::Ok(
            Val::Bool(
                match (v1, v2) {
                    (Val::Num(a), Val::Num(b)) => num_le(a, b),
                    (Val::Date(a), Val::Date(b)) => crate::models::date_key(a)
                        <= crate::models::date_key(b),
                    _ => false,
                },
            ),
        ),
        BinOp::GtOp => Result::Ok(
            Val::Bool(
                match (v1, v2) {
                    (Val::Num(a), Val::Num(b)) => num_lt(b, a),
                    (Val::Date(a), Val::Date(b)) => crate::models::date_key(a)
                        > crate::models::date_key(b),
                    _ => false,
                },
            ),
        ),
        BinOp::GeOp => Result::Ok(
            Val::Bool(
                match (v1, v2) {
                    (Val::Num(a), Val::Num(b)) => num_le(b, a),
                    (Val::Date(a), Val::Date(b)) => crate::models::date_key(a)
                        >= crate::models::date_key(b),
                    _ => false,
                },
            ),
        ),
        BinOp::InOp => match (v1, v2) {
            (Val::Text(a), Val::Text(b)) => Result::Ok(
                Val::Bool(text_contains(lower_of(b), lower_of(a))),
            ),
            _ => Result::Err(ErrV::InvalidType),
        },
        BinOp::ExactInOp => match (v1, v2) {
            (Val::Text(a), Val::Text(b)) => Result::Ok(Val::Bool(text_contains(b, a))),
            _ => Result::Err(ErrV::InvalidType),
        },
        BinOp::AddOp => Result::Ok(
            match (v1, v2) {
                (Val::Num(a), Val::Num(b)) => Val::Num(add_bits(a, b)),
                (Val::Num(a), Val::Text(t)) => Val::Text(num_text(a) + t),
                (Val::Text(t), Val::Bool(b)) => Val::Text(t + crate::textops::bool_text(b)),
                (Val::Text(t), Val::Num(a)) => Val::Text(t + num_text(a)),
                (Val::Text(t1), Val::Text(t2)) => Val::Text(t1 + t2),
                _ => Val::Blank,
            },
        ),
        BinOp::SubOp => Result::Ok(
            match (v1, v2) {
                (Val::Num(a), Val::Num(b)) => Val::Num(sub_bits(a, b)),
                _ => Val::Blank,
            },
        ),
        BinOp::MulOp => Result::Ok(
            match (v1, v2) {
                (Val::Num(a), Val::Num(b)) => Val::Num(mul_bits(a, b)),
                _ => Val::Blank,
            },
        ),
        BinOp::DivOp => Result::Ok(
            match (v1, v2) {
                (Val::Num(a), Val::Num(b)) => Val::Num(div_bits(a, b)),
                _ => Val::Blank,
            },
        ),
        BinOp::ModOp => Result::Ok(
            match (v1, v2) {
                (Val::Num(a), Val::Num(b)) => Val::Num(rem_bits(a, b)),
                _ => Val::Blank,
            },
        ),
        BinOp::ExpOp => Result::Err(
            ErrV::InvalidArgument("the exponent operator is not implemented"@),
        ),
    }
}


/// The alias a projection form reports for an expression.
pub open spec fn proj_alias(e: Expression) -> Seq<char> {
    match e {
        Expression::UnaryExpression(u) => match u {
            UnaryExpression::Property { context, key } => key@,
            UnaryExpression::Parameter(p) => p@,
            UnaryExpression::Alias { source, alias } => alias@,
            UnaryExpression::Identifier(id) => id@,
            _ => "expression"@,
        },
        Expression::BinaryExpression(_) => "expression"@,
        Expression::FunctionExpression(_) => "function"@,
    }
}

/// Combines two evaluated values under a binary operator, executably.
pub fn combine_values(v1: DataValue, v2: DataValue, op: BinOp) -> (r: Result<
    DataValue,
    EvaluationError,
>)
    ensures
        match (r, spec_combine(dv_view(v1), dv_view(v2), op)) {
            (Result::Ok(a), Result::Ok(b)) => dv_view(a) == b,
            (Result::Err(e), Result::Err(f)) => err_view(e) == f,
            _ => false,
        },
{
    match op {
        BinOp::EqOp => Ok(DataValue::Boolean(val_equal(&v1, &v2))),
        BinOp::NeOp => Ok(DataValue::Boolean(!val_equal(&v1, &v2))),
        BinOp::LtOp => Ok(
            DataValue::Boolean(
                match (&v1, &v2) {
                    (DataValue::Number(a), DataValue::Number(b)) => crate::numeric::ieee_lt(
                        *a,
                        *b,
                    ),
                    (DataValue::Date(a), DataValue::Date(b)) => a.lt(b),
                    _ => false,
                },
            ),
        ),
        BinOp::LeOp => Ok(
            DataValue::Boolean(
                match (&v1, &v2) {
                    (DataValue::Number(a), DataValue::Number(b)) => crate::numeric::ieee_le(
                        *a,
                        *b,
                    ),
                    (DataValue::Date(a), DataValue::Date(b)) => a.le(b),
                    _ => false,
                },
            ),
        ),
        BinOp::GtOp => Ok(
            DataValue::Boolean(
                match (&v1, &v2) {
                    (DataValue::Number(a), DataValue::Number(b)) => crate::numeric::ieee_lt(
                        *b,
                        *a,
                    ),
                    (DataValue::Date(a), DataValue::Date(b)) => b.lt(a),
                    _ => false,
                },
            ),
        ),
        BinOp::GeOp => Ok(
            DataValue::Boolean(
                match (&v1, &v2) {
                    (DataValue::Number(a), DataValue::Number(b)) => crate::numeric::ieee_le(
                        *b,
                        *a,
                    ),
                    (DataValue::Date(a), DataValue::Date(b)) => b.le(a),
                    _ => false,
                },
            ),
        ),
        BinOp::InOp => match (v1, v2) {
            (DataValue::Text(a), DataValue::Text(b)) => {
                let la = text_lower(a.as_str());
                let lb = text_lower(b.as_str());
                Ok(DataValue::Boolean(contains_chars(lb.as_str(), la.as_str())))
            },
            _ => Err(EvaluationError::InvalidType),
        },
        BinOp::ExactInOp => match (v1, v2) {
            (DataValue::Text(a), DataValue::Text(b)) => Ok(
                DataValue::Boolean(contains_chars(b.as_str(), a.as_str())),
            ),
            _ => Err(EvaluationError::InvalidType),
        },
        BinOp::AddOp => match (v1, v2) {
            (DataValue::Number(a), DataValue::Number(b)) => Ok(
                DataValue::Number(crate::numeric::num_add(a, b)),
            ),
            (DataValue::Number(a), DataValue::Text(t)) => {
                let s = num_to_text(a);
                Ok(DataValue::Text(s.concat(t.as_str())))
            },
            (DataValue::Text(t), DataValue::Boolean(b)) => {
                let s = bool_to_text(b);
                Ok(DataValue::Text(t.concat(s.as_str())))
            },
            (DataValue::Text(t), DataValue::Number(a)) => {
                let s = num_to_text(a);
                Ok(DataValue::Text(t.concat(s.as_str())))
            },
            (DataValue::Text(t1), DataValue::Text(t2)) => Ok(DataValue::Text(t1.concat(t2.as_str()))),
            _ => Ok(DataValue::Blank),
        },
        BinOp::SubOp => match (v1, v2) {
            (DataValue::Number(a), DataValue::Number(b)) => Ok(
                DataValue::Number(crate::numeric::num_sub(a, b)),
            ),
            _ => Ok(DataValue::Blank),
        },
        BinOp::MulOp => match (v1, v2) {
            (DataValue::Number(a), DataValue::Number(b)) => Ok(
                DataValue::Number(crate::numeric::num_mul(a, b)),
            ),
            _ => Ok(DataValue::Blank),
        },
        BinOp::DivOp => match (v1, v2) {
            (DataValue::Number(a), DataValue::Number(b)) => Ok(
                DataValue::Number(crate::numeric::num_div(a, b)),
            ),
            _ => Ok(DataValue::Blank),
        },
        BinOp::ModOp => match (v1, v2) {
            (DataValue::Number(a), DataValue::Number(b)) => Ok(
                DataValue::Number(crate::numeric::num_rem(a, b)),
            ),
            _ => Ok(DataValue::Blank),
        },
        BinOp::ExpOp => Err(
            EvaluationError::InvalidArgument("the exponent operator is not implemented".to_owned()),
        ),
    }
}

/// The tree-walking evaluator; it holds the registry of callable
/// functions and interprets expressions against a session.
pub struct ExpressionEvaluator {
    function_registry: FunctionRegistry,
}

impl View for ExpressionEvaluator {
    type V = Map<Seq<char>, Function>;

    closed spec fn view(&self) -> Map<Seq<char>, Function> {
        self.function_registry@
    }
}

impl ExpressionEvaluator {
    /// An evaluator over the given registry.
    pub fn new(function_registry: FunctionRegistry) -> (r: ExpressionEvaluator)
        ensures
            r@ == function_registry@,
    {
        ExpressionEvaluator { function_registry }
    }

    /// Evaluates an expression against a session: the specified value or
    /// error comes back, and the session holds what the expression's
    /// `Set` calls wrote.
    pub fn evaluate_expression(&self, context: &mut Session, expression: &Expression) -> (r:
        Result<DataValue, EvaluationError>)
        ensures
            out_matches(final(context)@, r, spec_eval(self@, old(context)@, *expression)),
        decreases eheight(*expression), 3int,
    {
        match expression {
            Expression::UnaryExpression(u) => self.evaluate_unary_expression(context, u),
            Expression::BinaryExpression(b) => self.evaluate_binary_expression(context, b),
            Expression::FunctionExpression(f) => self.evaluate_function_expression(context, f),
        }
    }

    /// Evaluates an expression as a predicate: a non-boolean value reads
    /// as false.
    pub fn evaluate_predicate(&self, context: &mut Session, expression: &Expression) -> (r: Result<
        bool,
        EvaluationError,
    >)
        ensures
            ({
                let (s2, rb) = spec_eval_pred(self@, old(context)@, *expression);
                &&& final(context)@ == s2
                &&& match (r, rb) {
                    (Result::Ok(b1), Result::Ok(b2)) => b1 == b2,
                    (Result::Err(e), Result::Err(f)) => err_view(e) == f,
                    _ => false,
                }
            }),
        decreases eheight(*expression), 4int,
    {
        match self.evaluate_expression(context, expression) {
            Ok(v) => match v {
                DataValue::Boolean(b) => Ok(b),
                _ => Ok(false),
            },
            Err(e) => Err(e),
        }
    }

    /// Evaluates an expression and pairs it with the field name a
    /// projection would use for it.
    pub fn evaluate_projection_field(&self, context: &mut Session, expression: &Expression) -> (r:
        Result<(String, DataValue), EvaluationError>)
        ensures
            ({
                let (s2, res) = spec_eval(self@, old(context)@, *expression);
                &&& final(context)@ == s2
                &&& match (r, res) {
                    (Result::Ok(p), Result::Ok(w)) => p.0@ == proj_alias(*expression) && dv_view(
                        p.1,
                    ) == w,
                    (Result::Err(e), Result::Err(f)) => err_view(e) == f,
                    _ => false,
                }
            }),
    {
        let value = match self.evaluate_expression(context, expression) {
            Ok(v) => v,
            Err(e) => {
                return Err(e);
            },
        };
        let alias: String = match expression {
            Expression::UnaryExpression(u) => match u {
                UnaryExpression::Property { context: _, key } => key.clone(),
                UnaryExpression::Parameter(p) => p.clone(),
                UnaryExpression::Alias { source: _, alias } => alias.clone(),
                UnaryExpression::Identifier(id) => id.clone(),
                _ => {
                    let s: &str = "expression";
                    s.to_owned()
                },
            },
            Expression::BinaryExpression(_) => {
                let s: &str = "expression";
                s.to_owned()
            },
            Expression::FunctionExpression(_) => {
                let s: &str = "function";
                s.to_owned()
            },
        };
        Ok((alias, value))
    }

    /// Evaluates a unary form.
    fn evaluate_unary_expression(&self, context: &mut Session, expression: &UnaryExpression) -> (r:
        Result<DataValue, EvaluationError>)
        ensures
            out_matches(
                final(context)@,
                r,
                spec_eval_unary(
                    self@,
                    old(context)@,
                    Expression::UnaryExpression(*expression),
                    *expression,
                ),
            ),
        decreases eheight(Expression::UnaryExpression(*expression)), 2int,
    {
        match expression {
            UnaryExpression::Not(sub) => match self.evaluate_predicate(context, sub) {
                Ok(b) => Ok(DataValue::Boolean(!b)),
                Err(e) => Err(e),
            },
            UnaryExpression::IsBlank(sub) => match self.evaluate_expression(context, sub) {
                Ok(v) => Ok(DataValue::Boolean(v.is_blank())),
                Err(e) => Err(e),
            },
            UnaryExpression::IsNotBlank(sub) => match self.evaluate_expression(context, sub) {
                Ok(v) => Ok(DataValue::Boolean(v.is_not_blank())),
                Err(e) => Err(e),
            },
            UnaryExpression::Literal(l) => self.evaluate_literal(context, l),
            UnaryExpression::Property { context: ctx, key } => {
                let message: &str = match ctx {
                    Context::Parent => "the Parent context is not available",
                    Context::Self_ => "the Self context is not available",
                    Context::ThisItem => "the ThisItem context is not available",
                    Context::ThisRecord => "the ThisRecord context is not available",
                };
                Err(EvaluationError::InvalidArgument(message.to_owned()))
            },
            UnaryExpression::Identifier(name) => match context.get_variable(name.as_str()) {
                Some(v) => Ok(v.duplicate()),
                None => Err(EvaluationError::UnknownIdentifier(name.clone())),
            },
            UnaryExpression::Parameter(name) => match context.get_variable(name.as_str()) {
                Some(v) => Ok(v.duplicate()),
                None => Err(EvaluationError::UnknownIdentifier(name.clone())),
            },
            UnaryExpression::Alias { source, alias: _ } => self.evaluate_expression(
                context,
                source,
            ),
        }
    }

    /// Evaluates a literal; record and table literals evaluate their
    /// embedded field expressions now.
    #[verifier::loop_isolation(false)]
    fn evaluate_literal(&self, context: &mut Session, literal: &Literal) -> (r: Result<
        DataValue,
        EvaluationError,
    >)
        ensures
            out_matches(final(context)@, r, spec_eval_literal(self@, old(context)@, *literal)),
        decreases lheight(*literal), 3int,
    {
        match literal {
            Literal::Date(d) => Ok(DataValue::Date(*d)),
            Literal::Number(n) => Ok(DataValue::Number(*n)),
            Literal::Boolean(b) => Ok(DataValue::Boolean(*b)),
            Literal::OptionSet(o) => {
                let mut options: Vec<(i64, String)> = Vec::new();
                let mut i: usize = 0;
                while i < o.options.len()
                    invariant
                        0 <= i <= o.options@.len(),
                        options@.len() == i,
                        forall|j: int| 0 <= j < i ==> options@[j] == o.options@[j],
                    decreases o.options@.len() - i,
                {
                    let code = o.options[i].0;
                    let label = o.options[i].1.clone();
                    options.push((code, label));
                    i = i + 1;
                }
                proof {
                    assert(options@ =~= o.options@);
                }
                Ok(DataValue::OptionSet(crate::models::OptionSet { options }))
            },
            Literal::Text(t) => Ok(DataValue::Text(t.clone())),
            Literal::Image(t) => Ok(DataValue::Image(t.clone())),
            Literal::Hyperlink(t) => Ok(DataValue::Hyperlink(t.clone())),
            Literal::Media(t) => Ok(DataValue::Media(t.clone())),
            Literal::Record(rec) => {
                proof {
                    assert(decreases_to!(*literal => *rec));
                    assert(decreases_to!(*rec => rec.fields));
                    assert(decreases_to!(rec.fields => rec.fields@));
                }
                match self.evaluate_fields(context, &rec.fields) {
                    Ok(fields) => Ok(DataValue::Record(Record { fields })),
                    Err(e) => Err(e),
                }
            },
            Literal::Table(t) => {
                let ghost s0 = context@;
                let mut rows: Vec<Record> = Vec::new();
                let mut i: usize = 0;
                while i < t.len()
                    invariant
                        0 <= i <= t@.len(),
                        spec_rows_from(self@, s0, t@, 0, Seq::empty()) == spec_rows_from(
                            self@,
                            context@,
                            t@,
                            i as int,
                            crate::models::rows_view(rows@),
                        ),
                    decreases t@.len() - i,
                {
                    proof {
                        crate::ast::lemma_rsheight_index(t@, i as int);
                    }
                    match self.evaluate_fields(context, &t[i].fields) {
                        Ok(fields) => {
                            let ghost oldrows = rows@;
                            rows.push(Record { fields });
                            proof {
                                assert(rows@.drop_last() =~= oldrows);
                            }
                        },
                        Err(e) => {
                            return Err(e);
                        },
                    }
                    i = i + 1;
                }
                Ok(DataValue::Table(rows))
            },
            Literal::Blank => Ok(DataValue::Blank),
        }
    }

    /// Evaluates the fields of one record literal, in order.
    #[verifier::loop_isolation(false)]
    fn evaluate_fields(&self, context: &mut Session, fs: &Vec<(String, Expression)>) -> (r: Result<
        Vec<(String, DataValue)>,
        EvaluationError,
    >)
        ensures
            ({
                let (s2, res) = spec_fields_from(self@, old(context)@, fs@, 0, Seq::empty());
                &&& final(context)@ == s2
                &&& match (r, res) {
                    (Result::Ok(v), Result::Ok(sv)) => fields_view(v@) == sv,
                    (Result::Err(e), Result::Err(f)) => err_view(e) == f,
                    _ => false,
                }
            }),
        decreases fsheight(fs@), 2int,
    {
        let ghost s0 = context@;
        let mut out: Vec<(String, DataValue)> = Vec::new();
        let mut i: usize = 0;
        while i < fs.len()
            invariant
                0 <= i <= fs@.len(),
                spec_fields_from(self@, s0, fs@, 0, Seq::empty()) == spec_fields_from(
                    self@,
                    context@,
                    fs@,
                    i as int,
                    fields_view(out@),
                ),
            decreases fs@.len() - i,
        {
            proof {
                lemma_fsheight_index(fs@, i as int);
            }
            match self.evaluate_expression(context, &fs[i].1) {
                Ok(v) => {
                    let ghost oldout = out@;
                    let key = fs[i].0.clone();
                    out.push((key, v));
                    proof {
                        assert(out@.drop_last() =~= oldout);
                    }
                },
                Err(e) => {
                    return Err(e);
                },
            }
            i = i + 1;
        }
        Ok(out)
    }

    /// Evaluates both operands of an operator, then combines them.
    fn eval_two(
        &self,
        context: &mut Session,
        l: &Expression,
        r: &Expression,
        op: BinOp,
        Ghost(e): Ghost<Expression>,
    ) -> (res: Result<DataValue, EvaluationError>)
        requires
            eheight(*l) < eheight(e),
            eheight(*r) < eheight(e),
        ensures
            out_matches(final(context)@, res, spec_eval_two(self@, old(context)@, e, *l, *r, op)),
        decreases eheight(e), 1int,
    {
        let v1 = match self.evaluate_expression(context, l) {
            Ok(v) => v,
            Err(er) => {
                return Err(er);
            },
        };
        let v2 = match self.evaluate_expression(context, r) {
            Ok(v) => v,
            Err(er) => {
                return Err(er);
            },
        };
        combine_values(v1, v2, op)
    }

    /// Evaluates a binary operator node.
    fn evaluate_binary_expression(&self, context: &mut Session, expression: &BinaryExpression) -> (
        r: Result<DataValue, EvaluationError>)
        ensures
            out_matches(
                final(context)@,
                r,
                spec_eval_binary(
                    self@,
                    old(context)@,
                    Expression::BinaryExpression(*expression),
                    *expression,
                ),
            ),
        decreases eheight(Expression::BinaryExpression(*expression)), 2int,
    {
        let ghost e = Expression::BinaryExpression(*expression);
        match expression {
            BinaryExpression::And(l, r) => match self.evaluate_predicate(context, l) {
                Ok(b1) => {
                    if !b1 {
                        Ok(DataValue::Boolean(false))
                    } else {
                        match self.evaluate_predicate(context, r) {
                            Ok(b2) => Ok(DataValue::Boolean(b2)),
                            Err(er) => Err(er),
                        }
                    }
                },
                Err(er) => Err(er),
            },
            BinaryExpression::Or(l, r) => match self.evaluate_predicate(context, l) {
                Ok(b1) => {
                    if b1 {
                        Ok(DataValue::Boolean(true))
                    } else {
                        match self.evaluate_predicate(context, r) {
                            Ok(b2) => Ok(DataValue::Boolean(b2)),
                            Err(er) => Err(er),
                        }
                    }
                },
                Err(er) => Err(er),
            },
            BinaryExpression::Eq(l, r) => self.eval_two(context, l, r, BinOp::EqOp, Ghost(e)),
            BinaryExpression::Ne(l, r) => self.eval_two(context, l, r, BinOp::NeOp, Ghost(e)),
            BinaryExpression::Lt(l, r) => self.eval_two(context, l, r, BinOp::LtOp, Ghost(e)),
            BinaryExpression::Le(l, r) => self.eval_two(context, l, r, BinOp::LeOp, Ghost(e)),
            BinaryExpression::Gt(l, r) => self.eval_two(context, l, r, BinOp::GtOp, Ghost(e)),
            BinaryExpression::Ge(l, r) => self.eval_two(context, l, r, BinOp::GeOp, Ghost(e)),
            BinaryExpression::In(l, r, exact) => self.eval_two(
                context,
                l,
                r,
                if *exact {
                    BinOp::ExactInOp
                } else {
                    BinOp::InOp
                },
                Ghost(e),
            ),
            BinaryExpression::Add(l, r) => self.eval_two(context, l, r, BinOp::AddOp, Ghost(e)),
            BinaryExpression::Subtract(l, r) => self.eval_two(
                context,
                l,
                r,
                BinOp::SubOp,
                Ghost(e),
            ),
            BinaryExpression::Multiply(l, r) => self.eval_two(
                context,
                l,
                r,
                BinOp::MulOp,
                Ghost(e),
            ),
            BinaryExpression::Divide(l, r) => self.eval_two(context, l, r, BinOp::DivOp, Ghost(e)),
            BinaryExpression::Modulo(l, r) => self.eval_two(context, l, r, BinOp::ModOp, Ghost(e)),
            BinaryExpression::Exponent(l, r) => self.eval_two(
                context,
                l,
                r,
                BinOp::ExpOp,
                Ghost(e),
            ),
        }
    }

    /// Looks a called function up and dispatches to it.
    fn evaluate_function_expression(&self, context: &mut Session, func: &FunctionExpression) -> (r:
        Result<DataValue, EvaluationError>)
        ensures
            out_matches(
                final(context)@,
                r,
                spec_eval(self@, old(context)@, Expression::FunctionExpression(*func)),
            ),
        decreases eheight(Expression::FunctionExpression(*func)), 2int,
    {
        match self.function_registry.get_function(func.name.as_str()) {
            Some(f) => self.call_function(context, f, &func.args),
            None => Err(EvaluationError::UnknownFunction(func.name.clone())),
        }
    }

    /// Calls a built-in on unevaluated argument expressions.
    fn call_function(&self, context: &mut Session, f: Function, args: &Vec<Expression>) -> (r:
        Result<DataValue, EvaluationError>)
        ensures
            out_matches(
                final(context)@,
                r,
                crate::functions::spec_call(self@, old(context)@, f, args@),
            ),
        decreases esheight(args@), 3int,
    {
        match f {
            Function::Table => crate::functions::table::Table.call(self, context, args),
            Function::First => crate::functions::table::First.call(self, context, args),
            Function::Last => crate::functions::table::Last.call(self, context, args),
            Function::Index => crate::functions::table::Index.call(self, context, args),
            Function::Filter => crate::functions::table::Filter.call(self, context, args),
            Function::SetVar => crate::functions::context::SetVar.call(self, context, args),
            Function::If => crate::functions::logical::If.call(self, context, args),
            Function::And => crate::functions::logical::And.call(self, context, args),
            Function::Or => crate::functions::logical::Or.call(self, context, args),
            Function::Not => crate::functions::logical::Not.call(self, context, args),
            Function::Abs => crate::functions::math::Abs.call(self, context, args),
            Function::Sqrt => crate::functions::math::Sqrt.call(self, context, args),
            Function::Left => crate::functions::text::Left.call(self, context, args),
            Function::Mid => crate::functions::text::Mid.call(self, context, args),
            Function::Right => crate::functions::text::Right.call(self, context, args),
            Function::Upper => crate::functions::text::Upper.call(self, context, args),
            Function::Lower => crate::functions::text::Lower.call(self, context, args),
            Function::Average => crate::functions::aggregation::Average.call(self, context, args),
            Function::Sum => crate::functions::aggregation::Sum.call(self, context, args),
            Function::Min => crate::functions::aggregation::Min.call(self, context, args),
            Function::Max => crate::functions::aggregation::Max.call(self, context, args),
        }
    }
}

} // verus!

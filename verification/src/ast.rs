//! The abstract syntax tree a program parses to: literals, unary forms,
//! binary operators and function calls.
use vstd::prelude::*;

use crate::models::Date;
use crate::models::opts_view;
use crate::textops::str_lt;

verus! {

broadcast use vstd::std_specs::vec::group_vec_axioms, vstd::seq::group_seq_axioms;

/// A mapping from integer codes to text labels, as a literal.
#[derive(Debug)]
pub struct OptionSet {
    pub options: Vec<(i64, String)>,
}

/// A record literal: field names mapped to unevaluated field expressions,
/// kept sorted by name.
#[derive(Debug)]
pub struct Record {
    pub fields: Vec<(String, Expression)>,
}

/// A literal value in the source text.  Record and table literals embed
/// child expressions, evaluated only at evaluation time.
#[derive(Debug)]
pub enum Literal {
    Date(Date),
    Number(u64),
    Boolean(bool),
    OptionSet(OptionSet),
    Text(String),
    Image(String),
    Hyperlink(String),
    Media(String),
    Record(Record),
    Table(Vec<Record>),
    Blank,
}

/// The context of a property form such as `Parent.key`.
#[derive(Debug, Clone, Copy, PartialEq, Eq, Structural)]
pub enum Context {
    Parent,
    Self_,
    ThisItem,
    ThisRecord,
}

/// An expression.
#[derive(Debug)]
pub enum Expression {
    UnaryExpression(UnaryExpression),
    BinaryExpression(BinaryExpression),
    FunctionExpression(FunctionExpression),
}

/// The unary forms: literals, names, properties, aliases and the three
/// prefix operators.
#[derive(Debug)]
pub enum UnaryExpression {
    Not(Box<Expression>),
    IsBlank(Box<Expression>),
    IsNotBlank(Box<Expression>),
    Literal(Literal),
    Property { context: Context, key: String },
    Parameter(String),
    Identifier(String),
    Alias { source: Box<Expression>, alias: String },
}

/// The binary operators.  The `bool` of `In` is true for the
/// case-sensitive form (`exactin`).
#[derive(Debug)]
pub enum BinaryExpression {
    And(Box<Expression>, Box<Expression>),
    Or(Box<Expression>, Box<Expression>),
    Eq(Box<Expression>, Box<Expression>),
    Ne(Box<Expression>, Box<Expression>),
    Lt(Box<Expression>, Box<Expression>),
    Le(Box<Expression>, Box<Expression>),
    Gt(Box<Expression>, Box<Expression>),
    Ge(Box<Expression>, Box<Expression>),
    In(Box<Expression>, Box<Expression>, bool),
    Add(Box<Expression>, Box<Expression>),
    Subtract(Box<Expression>, Box<Expression>),
    Multiply(Box<Expression>, Box<Expression>),
    Divide(Box<Expression>, Box<Expression>),
    Modulo(Box<Expression>, Box<Expression>),
    Exponent(Box<Expression>, Box<Expression>),
}

/// A function call: a name and the unevaluated argument expressions.
#[derive(Debug)]
pub struct FunctionExpression {
    pub name: String,
    pub args: Vec<Expression>,
}

/// The height of an expression tree; every expression has height at least
/// one, and every proper part is lower than the whole.
pub open spec fn eheight(e: Expression) -> nat
    decreases e,
{
    match e {
        Expression::UnaryExpression(u) => match u {
            UnaryExpression::Not(b) => 1 + eheight(*b),
            UnaryExpression::IsBlank(b) => 1 + eheight(*b),
            UnaryExpression::IsNotBlank(b) => 1 + eheight(*b),
            UnaryExpression::Literal(l) => 1 + lheight(l),
            UnaryExpression::Property { .. } => 1,
            UnaryExpression::Parameter(_) => 1,
            UnaryExpression::Identifier(_) => 1,
            UnaryExpression::Alias { source, .. } => 1 + eheight(*source),
        },
        Expression::BinaryExpression(b) => match b {
            BinaryExpression::And(l, r) => 1 + eheight(*l) + eheight(*r),
            BinaryExpression::Or(l, r) => 1 + eheight(*l) + eheight(*r),
            BinaryExpression::Eq(l, r) => 1 + eheight(*l) + eheight(*r),
            BinaryExpression::Ne(l, r) => 1 + eheight(*l) + eheight(*r),
            BinaryExpression::Lt(l, r) => 1 + eheight(*l) + eheight(*r),
            BinaryExpression::Le(l, r) => 1 + eheight(*l) + eheight(*r),
            BinaryExpression::Gt(l, r) => 1 + eheight(*l) + eheight(*r),
            BinaryExpression::Ge(l, r) => 1 + eheight(*l) + eheight(*r),
            BinaryExpression::In(l, r, _) => 1 + eheight(*l) + eheight(*r),
            BinaryExpression::Add(l, r) => 1 + eheight(*l) + eheight(*r),
            BinaryExpression::Subtract(l, r) => 1 + eheight(*l) + eheight(*r),
            BinaryExpression::Multiply(l, r) => 1 + eheight(*l) + eheight(*r),
            BinaryExpression::Divide(l, r) => 1 + eheight(*l) + eheight(*r),
            BinaryExpression::Modulo(l, r) => 1 + eheight(*l) + eheight(*r),
            BinaryExpression::Exponent(l, r) => 1 + eheight(*l) + eheight(*r),
        },
        Expression::FunctionExpression(f) => 1 + esheight(f.args@),
    }
}

/// The summed height of a list of expressions.
pub open spec fn esheight(es: Seq<Expression>) -> nat
    decreases es,
{
    if es.len() == 0 {
        0
    } else {
        esheight(es.drop_last()) + eheight(es.last()) + 1
    }
}

/// The summed height of a record literal's field expressions.
pub open spec fn fsheight(fs: Seq<(String, Expression)>) -> nat
    decreases fs,
{
    if fs.len() == 0 {
        0
    } else {
        fsheight(fs.drop_last()) + eheight(fs.last().1) + 1
    }
}

/// The summed height of a table literal's rows.
pub open spec fn rsheight(rs: Seq<Record>) -> nat
    decreases rs,
{
    if rs.len() == 0 {
        0
    } else {
        rsheight(rs.drop_last()) + fsheight(rs.last().fields@) + 1
    }
}

/// The height of a literal: one more than its embedded expressions, if
/// any.
pub open spec fn lheight(l: Literal) -> nat
    decreases l,
{
    match l {
        Literal::Record(r) => 1 + fsheight(r.fields@),
        Literal::Table(t) => 1 + rsheight(t@),
        _ => 1,
    }
}

/// An element of a list stands no taller than the whole list.
pub proof fn lemma_esheight_index(es: Seq<Expression>, i: int)
    requires
        0 <= i < es.len(),
    ensures
        eheight(es[i]) < esheight(es),
    decreases es,
{
    if i == es.len() - 1 {
        assert(es.last() == es[i]);
    } else {
        lemma_esheight_index(es.drop_last(), i);
        assert(es.drop_last()[i] == es[i]);
    }
}

/// A field expression stands no taller than the whole field list.
pub proof fn lemma_fsheight_index(fs: Seq<(String, Expression)>, i: int)
    requires
        0 <= i < fs.len(),
    ensures
        eheight(fs[i].1) < fsheight(fs),
    decreases fs,
{
    if i == fs.len() - 1 {
        assert(fs.last() == fs[i]);
    } else {
        lemma_fsheight_index(fs.drop_last(), i);
        assert(fs.drop_last()[i] == fs[i]);
    }
}

/// A row stands no taller than the whole table literal.
pub proof fn lemma_rsheight_index(rs: Seq<Record>, i: int)
    requires
        0 <= i < rs.len(),
    ensures
        fsheight(rs[i].fields@) < rsheight(rs),
    decreases rs,
{
    if i == rs.len() - 1 {
        assert(rs.last() == rs[i]);
    } else {
        lemma_rsheight_index(rs.drop_last(), i);
        assert(rs.drop_last()[i] == rs[i]);
    }
}


/// The mathematical mirror of a literal: text as character sequences.
pub enum LitV {
    DateL(Date),
    NumL(u64),
    BoolL(bool),
    OptL(Seq<(i64, Seq<char>)>),
    TextL(Seq<char>),
    ImageL(Seq<char>),
    LinkL(Seq<char>),
    MediaL(Seq<char>),
    RecL(Seq<(Seq<char>, ExprV)>),
    TabL(Seq<Seq<(Seq<char>, ExprV)>>),
    BlankL,
}

/// The mathematical mirror of an expression, with names as character
/// sequences.
pub enum ExprV {
    NotV(Box<ExprV>),
    IsBlankV(Box<ExprV>),
    IsNotBlankV(Box<ExprV>),
    LiteralV(LitV),
    PropertyV(Context, Seq<char>),
    ParameterV(Seq<char>),
    IdentifierV(Seq<char>),
    AliasV(Box<ExprV>, Seq<char>),
    AndV(Box<ExprV>, Box<ExprV>),
    OrV(Box<ExprV>, Box<ExprV>),
    EqV(Box<ExprV>, Box<ExprV>),
    NeV(Box<ExprV>, Box<ExprV>),
    LtV(Box<ExprV>, Box<ExprV>),
    LeV(Box<ExprV>, Box<ExprV>),
    GtV(Box<ExprV>, Box<ExprV>),
    GeV(Box<ExprV>, Box<ExprV>),
    InV(Box<ExprV>, Box<ExprV>, bool),
    AddV(Box<ExprV>, Box<ExprV>),
    SubtractV(Box<ExprV>, Box<ExprV>),
    MultiplyV(Box<ExprV>, Box<ExprV>),
    DivideV(Box<ExprV>, Box<ExprV>),
    ModuloV(Box<ExprV>, Box<ExprV>),
    ExponentV(Box<ExprV>, Box<ExprV>),
    CallV(Seq<char>, Seq<ExprV>),
}

/// The mirror of a list of expressions.
pub open spec fn eargs_view(es: Seq<Expression>) -> Seq<ExprV>
    decreases es,
{
    if es.len() == 0 {
        Seq::empty()
    } else {
        eargs_view(es.drop_last()).push(ev_view(es.last()))
    }
}

/// The mirror of a record literal's fields.
pub open spec fn efields_view(fs: Seq<(String, Expression)>) -> Seq<(Seq<char>, ExprV)>
    decreases fs,
{
    if fs.len() == 0 {
        Seq::empty()
    } else {
        efields_view(fs.drop_last()).push((fs.last().0@, ev_view(fs.last().1)))
    }
}

/// The mirror of a table literal's rows.
pub open spec fn erows_view(rs: Seq<Record>) -> Seq<Seq<(Seq<char>, ExprV)>>
    decreases rs,
{
    if rs.len() == 0 {
        Seq::empty()
    } else {
        erows_view(rs.drop_last()).push(efields_view(rs.last().fields@))
    }
}

/// The mirror of a literal.
pub open spec fn lv_view(l: Literal) -> LitV
    decreases l,
{
    match l {
        Literal::Date(d) => LitV::DateL(d),
        Literal::Number(b) => LitV::NumL(b),
        Literal::Boolean(b) => LitV::BoolL(b),
        Literal::OptionSet(o) => LitV::OptL(opts_view(o.options@)),
        Literal::Text(t) => LitV::TextL(t@),
        Literal::Image(t) => LitV::ImageL(t@),
        Literal::Hyperlink(t) => LitV::LinkL(t@),
        Literal::Media(t) => LitV::MediaL(t@),
        Literal::Record(r) => LitV::RecL(efields_view(r.fields@)),
        Literal::Table(t) => LitV::TabL(erows_view(t@)),
        Literal::Blank => LitV::BlankL,
    }
}

/// The mirror of an expression.
pub open spec fn ev_view(e: Expression) -> ExprV
    decreases e,
{
    match e {
        Expression::UnaryExpression(u) => match u {
            UnaryExpression::Not(b) => ExprV::NotV(Box::new(ev_view(*b))),
            UnaryExpression::IsBlank(b) => ExprV::IsBlankV(Box::new(ev_view(*b))),
            UnaryExpression::IsNotBlank(b) => ExprV::IsNotBlankV(Box::new(ev_view(*b))),
            UnaryExpression::Literal(l) => ExprV::LiteralV(lv_view(l)),
            UnaryExpression::Property { context, key } => ExprV::PropertyV(context, key@),
            UnaryExpression::Parameter(p) => ExprV::ParameterV(p@),
            UnaryExpression::Identifier(id) => ExprV::IdentifierV(id@),
            UnaryExpression::Alias { source, alias } => ExprV::AliasV(
                Box::new(ev_view(*source)),
                alias@,
            ),
        },
        Expression::BinaryExpression(b) => match b {
            BinaryExpression::And(l, r) => ExprV::AndV(
                Box::new(ev_view(*l)),
                Box::new(ev_view(*r)),
            ),
            BinaryExpression::Or(l, r) => ExprV::OrV(Box::new(ev_view(*l)), Box::new(ev_view(*r))),
            BinaryExpression::Eq(l, r) => ExprV::EqV(Box::new(ev_view(*l)), Box::new(ev_view(*r))),
            BinaryExpression::Ne(l, r) => ExprV::NeV(Box::new(ev_view(*l)), Box::new(ev_view(*r))),
            BinaryExpression::Lt(l, r) => ExprV::LtV(Box::new(ev_view(*l)), Box::new(ev_view(*r))),
            BinaryExpression::Le(l, r) => ExprV::LeV(Box::new(ev_view(*l)), Box::new(ev_view(*r))),
            BinaryExpression::Gt(l, r) => ExprV::GtV(Box::new(ev_view(*l)), Box::new(ev_view(*r))),
            BinaryExpression::Ge(l, r) => ExprV::GeV(Box::new(ev_view(*l)), Box::new(ev_view(*r))),
            BinaryExpression::In(l, r, x) => ExprV::InV(
                Box::new(ev_view(*l)),
                Box::new(ev_view(*r)),
                x,
            ),
            BinaryExpression::Add(l, r) => ExprV::AddV(
                Box::new(ev_view(*l)),
                Box::new(ev_view(*r)),
            ),
            BinaryExpression::Subtract(l, r) => ExprV::SubtractV(
                Box::new(ev_view(*l)),
                Box::new(ev_view(*r)),
            ),
            BinaryExpression::Multiply(l, r) => ExprV::MultiplyV(
                Box::new(ev_view(*l)),
                Box::new(ev_view(*r)),
            ),
            BinaryExpression::Divide(l, r) => ExprV::DivideV(
                Box::new(ev_view(*l)),
                Box::new(ev_view(*r)),
            ),
            BinaryExpression::Modulo(l, r) => ExprV::ModuloV(
                Box::new(ev_view(*l)),
                Box::new(ev_view(*r)),
            ),
            BinaryExpression::Exponent(l, r) => ExprV::ExponentV(
                Box::new(ev_view(*l)),
                Box::new(ev_view(*r)),
            ),
        },
        Expression::FunctionExpression(f) => ExprV::CallV(f.name@, eargs_view(f.args@)),
    }
}

/// An expression list mirrors its source pointwise.
pub broadcast proof fn lemma_eargs_view_len(es: Seq<Expression>)
    ensures
        (#[trigger] eargs_view(es)).len() == es.len(),
    decreases es,
{
    if es.len() > 0 {
        lemma_eargs_view_len(es.drop_last());
    }
}

/// Each mirrored expression is the mirror of the one at the same place.
pub broadcast proof fn lemma_eargs_view_index(es: Seq<Expression>, i: int)
    requires
        0 <= i < es.len(),
    ensures
        (#[trigger] eargs_view(es)[i]) == ev_view(es[i]),
    decreases es,
{
    lemma_eargs_view_len(es);
    if es.len() > 0 && i < es.len() - 1 {
        lemma_eargs_view_index(es.drop_last(), i);
    }
}

/// A field list mirrors its source pointwise.
pub broadcast proof fn lemma_efields_view_len(fs: Seq<(String, Expression)>)
    ensures
        (#[trigger] efields_view(fs)).len() == fs.len(),
    decreases fs,
{
    if fs.len() > 0 {
        lemma_efields_view_len(fs.drop_last());
    }
}

/// Each mirrored field is the mirror of the field at the same place.
pub broadcast proof fn lemma_efields_view_index(fs: Seq<(String, Expression)>, i: int)
    requires
        0 <= i < fs.len(),
    ensures
        (#[trigger] efields_view(fs)[i]) == (fs[i].0@, ev_view(fs[i].1)),
    decreases fs,
{
    lemma_efields_view_len(fs);
    if fs.len() > 0 && i < fs.len() - 1 {
        lemma_efields_view_index(fs.drop_last(), i);
    }
}

/// A row list mirrors its source pointwise.
pub broadcast proof fn lemma_erows_view_len(rs: Seq<Record>)
    ensures
        (#[trigger] erows_view(rs)).len() == rs.len(),
    decreases rs,
{
    if rs.len() > 0 {
        lemma_erows_view_len(rs.drop_last());
    }
}

/// Each mirrored row is the mirror of the record at the same place.
pub broadcast proof fn lemma_erows_view_index(rs: Seq<Record>, i: int)
    requires
        0 <= i < rs.len(),
    ensures
        (#[trigger] erows_view(rs)[i]) == efields_view(rs[i].fields@),
    decreases rs,
{
    lemma_erows_view_len(rs);
    if rs.len() > 0 && i < rs.len() - 1 {
        lemma_erows_view_index(rs.drop_last(), i);
    }
}

/// The pointwise description of the expression mirrors, for broadcast
/// use.
pub broadcast group group_ast_view_lemmas {
    lemma_eargs_view_len,
    lemma_eargs_view_index,
    lemma_efields_view_len,
    lemma_efields_view_index,
    lemma_erows_view_len,
    lemma_erows_view_index,
}

/// Where a field named `k` belongs in a name-sorted field list: after
/// every name below it.
pub open spec fn field_pos(fs: Seq<(Seq<char>, ExprV)>, k: Seq<char>) -> int
    decreases fs.len(),
{
    if fs.len() == 0 {
        0
    } else if str_lt(fs[0].0, k) {
        1 + field_pos(fs.skip(1), k)
    } else {
        0
    }
}

/// A name-sorted field list with `(k, v)` bound: an existing binding of
/// `k` is replaced, a new one is put at its sorted place.
pub open spec fn field_insert(fs: Seq<(Seq<char>, ExprV)>, k: Seq<char>, v: ExprV) -> Seq<
    (Seq<char>, ExprV),
> {
    let p = field_pos(fs, k);
    if p < fs.len() && fs[p].0 == k {
        fs.update(p, (k, v))
    } else {
        fs.insert(p, (k, v))
    }
}

/// The insertion place never passes the end of the list.
pub proof fn lemma_field_pos_range(fs: Seq<(Seq<char>, ExprV)>, k: Seq<char>)
    ensures
        0 <= field_pos(fs, k) <= fs.len(),
    decreases fs.len(),
{
    if fs.len() > 0 && str_lt(fs[0].0, k) {
        lemma_field_pos_range(fs.skip(1), k);
    }
}

/// Binds `(k, v)` into a sorted field vector, keeping it sorted;
/// mirrors `field_insert`.
#[verifier::loop_isolation(false)]
pub fn insert_field(fs: &mut Vec<(String, Expression)>, k: String, v: Expression)
    ensures
        efields_view(final(fs)@) == field_insert(efields_view(old(fs)@), k@, ev_view(v)),
{
    broadcast use group_ast_view_lemmas;

    let ghost fsv = efields_view(fs@);
    proof {
        lemma_field_pos_range(fsv, k@);
        assert(fsv.skip(0) =~= fsv);
    }
    let mut p: usize = 0;
    while p < fs.len() && crate::textops::str_less(fs[p].0.as_str(), k.as_str())
        invariant
            0 <= p <= fs@.len(),
            field_pos(fsv, k@) == p + field_pos(fsv.skip(p as int), k@),
        decreases fs@.len() - p,
    {
        proof {
            assert(fsv.skip(p as int)[0] == fsv[p as int]);
            assert(fsv.skip(p as int).skip(1) =~= fsv.skip(p + 1));
        }
        p = p + 1;
    }
    proof {
        if p < fs@.len() {
            assert(fsv.skip(p as int)[0] == fsv[p as int]);
        }
        assert(field_pos(fsv, k@) == p);
    }
    if p < fs.len() && crate::textops::str_same(fs[p].0.as_str(), k.as_str()) {
        fs.set(p, (k, v));
        proof {
            assert forall|j: int| 0 <= j < fs@.len() implies #[trigger] efields_view(fs@)[j]
                == field_insert(fsv, k@, ev_view(v))[j] by {}
            assert(efields_view(fs@) =~= field_insert(fsv, k@, ev_view(v)));
        }
    } else {
        fs.insert(p, (k, v));
        proof {
            assert forall|j: int| 0 <= j < fs@.len() implies #[trigger] efields_view(fs@)[j]
                == field_insert(fsv, k@, ev_view(v))[j] by {}
            assert(efields_view(fs@) =~= field_insert(fsv, k@, ev_view(v)));
        }
    }
}


impl Record {
    /// Builds a record literal from key/expression pairs: fields are kept
    /// sorted by name, and a later pair with an already-bound name wins.
    pub fn from(fields: Vec<(String, Expression)>) -> (r: Record)
        ensures
            efields_view(r.fields@) == fields_fold(efields_view(fields@)),
    {
        broadcast use group_ast_view_lemmas;

        let ghost psv = efields_view(fields@);
        let mut out: Vec<(String, Expression)> = Vec::new();
        let mut i: usize = 0;
        let mut rest = fields;
        while rest.len() > 0
            invariant
                efields_view(out@) == fields_fold_upto(psv, psv.len() - rest@.len()),
                efields_view(rest@) == psv.skip(psv.len() - rest@.len()),
                rest@.len() <= psv.len(),
            decreases rest@.len(),
        {
            let ghost done = psv.len() - rest@.len();
            let ghost prev = rest@;
            let pair = rest.remove(0);
            proof {
                assert(psv.skip(done)[0] == psv[done]);
                assert forall|j: int| 0 <= j < rest@.len() implies #[trigger] efields_view(rest@)[j]
                    == psv.skip(done + 1)[j] by {
                    assert(rest@[j] == prev[j + 1]);
                    lemma_efields_view_index(rest@, j);
                    lemma_efields_view_index(prev, j + 1);
                    assert(psv.skip(done)[j + 1] == psv[done + 1 + j]);
                    assert(psv.skip(done + 1)[j] == psv[done + 1 + j]);
                }
                lemma_efields_view_len(rest@);
                assert(efields_view(rest@) =~= psv.skip(done + 1));
                lemma_efields_view_index(prev, 0);
                assert(pair == prev[0]);
                assert((pair.0@, ev_view(pair.1)) == psv[done]);
            }
            insert_field(&mut out, pair.0, pair.1);
        }
        Record { fields: out }
    }
}

/// Folds the first `n` pairs into a sorted field list.
pub open spec fn fields_fold_upto(ps: Seq<(Seq<char>, ExprV)>, n: int) -> Seq<(Seq<char>, ExprV)>
    decreases n,
{
    if n <= 0 {
        Seq::empty()
    } else {
        field_insert(fields_fold_upto(ps, n - 1), ps[n - 1].0, ps[n - 1].1)
    }
}

/// Folds every pair into a sorted field list.
pub open spec fn fields_fold(ps: Seq<(Seq<char>, ExprV)>) -> Seq<(Seq<char>, ExprV)> {
    fields_fold_upto(ps, ps.len() as int)
}

impl UnaryExpression {
    /// Wraps a literal as an expression.
    pub fn literal(value: Literal) -> (r: Expression)
        ensures
            r == Expression::UnaryExpression(UnaryExpression::Literal(value)),
    {
        Expression::UnaryExpression(UnaryExpression::Literal(value))
    }

    /// Wraps an expression under a projection alias.
    pub fn alias(source: Expression, alias: String) -> (r: Expression)
        ensures
            r == Expression::UnaryExpression(
                UnaryExpression::Alias { source: Box::new(source), alias },
            ),
    {
        Expression::UnaryExpression(UnaryExpression::Alias { source: Box::new(source), alias })
    }

    /// A parameter reference.
    pub fn parameter(name: String) -> (r: Expression)
        ensures
            r == Expression::UnaryExpression(UnaryExpression::Parameter(name)),
    {
        Expression::UnaryExpression(UnaryExpression::Parameter(name))
    }

    /// A property form `context.key`.
    pub fn property(context: Context, key: String) -> (r: Expression)
        ensures
            r == Expression::UnaryExpression(UnaryExpression::Property { context, key }),
    {
        Expression::UnaryExpression(UnaryExpression::Property { context, key })
    }

    /// Logical negation.
    pub fn not(cond: Expression) -> (r: Expression)
        ensures
            r == Expression::UnaryExpression(UnaryExpression::Not(Box::new(cond))),
    {
        Expression::UnaryExpression(UnaryExpression::Not(Box::new(cond)))
    }

    /// An identifier reference.
    pub fn ident(ident: String) -> (r: Expression)
        ensures
            r == Expression::UnaryExpression(UnaryExpression::Identifier(ident)),
    {
        Expression::UnaryExpression(UnaryExpression::Identifier(ident))
    }

    /// The blank test.
    pub fn is_blank(expr: Expression) -> (r: Expression)
        ensures
            r == Expression::UnaryExpression(UnaryExpression::IsBlank(Box::new(expr))),
    {
        Expression::UnaryExpression(UnaryExpression::IsBlank(Box::new(expr)))
    }

    /// The non-blank test.
    pub fn is_not_blank(expr: Expression) -> (r: Expression)
        ensures
            r == Expression::UnaryExpression(UnaryExpression::IsNotBlank(Box::new(expr))),
    {
        Expression::UnaryExpression(UnaryExpression::IsNotBlank(Box::new(expr)))
    }
}

impl BinaryExpression {
    /// Conjunction of two conditions.
    pub fn and(a: Expression, b: Expression) -> (r: Expression)
        ensures
            r == Expression::BinaryExpression(
                BinaryExpression::And(Box::new(a), Box::new(b)),
            ),
    {
        Expression::BinaryExpression(BinaryExpression::And(Box::new(a), Box::new(b)))
    }

    /// Disjunction of two conditions.
    pub fn or(a: Expression, b: Expression) -> (r: Expression)
        ensures
            r == Expression::BinaryExpression(
                BinaryExpression::Or(Box::new(a), Box::new(b)),
            ),
    {
        Expression::BinaryExpression(BinaryExpression::Or(Box::new(a), Box::new(b)))
    }

    /// The equality comparison.
    pub fn eq(a: Expression, b: Expression) -> (r: Expression)
        ensures
            r == Expression::BinaryExpression(
                BinaryExpression::Eq(Box::new(a), Box::new(b)),
            ),
    {
        Expression::BinaryExpression(BinaryExpression::Eq(Box::new(a), Box::new(b)))
    }

    /// The inequality comparison.
    pub fn ne(a: Expression, b: Expression) -> (r: Expression)
        ensures
            r == Expression::BinaryExpression(
                BinaryExpression::Ne(Box::new(a), Box::new(b)),
            ),
    {
        Expression::BinaryExpression(BinaryExpression::Ne(Box::new(a), Box::new(b)))
    }

    /// The less-than comparison.
    pub fn lt(a: Expression, b: Expression) -> (r: Expression)
        ensures
            r == Expression::BinaryExpression(
                BinaryExpression::Lt(Box::new(a), Box::new(b)),
            ),
    {
        Expression::BinaryExpression(BinaryExpression::Lt(Box::new(a), Box::new(b)))
    }

    /// The at-most comparison.
    pub fn le(a: Expression, b: Expression) -> (r: Expression)
        ensures
            r == Expression::BinaryExpression(
                BinaryExpression::Le(Box::new(a), Box::new(b)),
            ),
    {
        Expression::BinaryExpression(BinaryExpression::Le(Box::new(a), Box::new(b)))
    }

    /// The greater-than comparison.
    pub fn gt(a: Expression, b: Expression) -> (r: Expression)
        ensures
            r == Expression::BinaryExpression(
                BinaryExpression::Gt(Box::new(a), Box::new(b)),
            ),
    {
        Expression::BinaryExpression(BinaryExpression::Gt(Box::new(a), Box::new(b)))
    }

    /// The at-least comparison.
    pub fn ge(a: Expression, b: Expression) -> (r: Expression)
        ensures
            r == Expression::BinaryExpression(
                BinaryExpression::Ge(Box::new(a), Box::new(b)),
            ),
    {
        Expression::BinaryExpression(BinaryExpression::Ge(Box::new(a), Box::new(b)))
    }

    /// Addition, or text concatenation when text is involved.
    pub fn add(a: Expression, b: Expression) -> (r: Expression)
        ensures
            r == Expression::BinaryExpression(
                BinaryExpression::Add(Box::new(a), Box::new(b)),
            ),
    {
        Expression::BinaryExpression(BinaryExpression::Add(Box::new(a), Box::new(b)))
    }

    /// Subtraction.
    pub fn subtract(a: Expression, b: Expression) -> (r: Expression)
        ensures
            r == Expression::BinaryExpression(
                BinaryExpression::Subtract(Box::new(a), Box::new(b)),
            ),
    {
        Expression::BinaryExpression(BinaryExpression::Subtract(Box::new(a), Box::new(b)))
    }

    /// Multiplication.
    pub fn multiply(a: Expression, b: Expression) -> (r: Expression)
        ensures
            r == Expression::BinaryExpression(
                BinaryExpression::Multiply(Box::new(a), Box::new(b)),
            ),
    {
        Expression::BinaryExpression(BinaryExpression::Multiply(Box::new(a), Box::new(b)))
    }

    /// Division.
    pub fn divide(a: Expression, b: Expression) -> (r: Expression)
        ensures
            r == Expression::BinaryExpression(
                BinaryExpression::Divide(Box::new(a), Box::new(b)),
            ),
    {
        Expression::BinaryExpression(BinaryExpression::Divide(Box::new(a), Box::new(b)))
    }

    /// The remainder.
    pub fn modulo(a: Expression, b: Expression) -> (r: Expression)
        ensures
            r == Expression::BinaryExpression(
                BinaryExpression::Modulo(Box::new(a), Box::new(b)),
            ),
    {
        Expression::BinaryExpression(BinaryExpression::Modulo(Box::new(a), Box::new(b)))
    }

    /// Exponentiation, reserved by the grammar.
    pub fn exponent(a: Expression, b: Expression) -> (r: Expression)
        ensures
            r == Expression::BinaryExpression(
                BinaryExpression::Exponent(Box::new(a), Box::new(b)),
            ),
    {
        Expression::BinaryExpression(BinaryExpression::Exponent(Box::new(a), Box::new(b)))
    }

    /// The containment test; `exact` is true for the case-sensitive form.
    pub fn in_(a: Expression, b: Expression, exact: bool) -> (r: Expression)
        ensures
            r == Expression::BinaryExpression(
                BinaryExpression::In(Box::new(a), Box::new(b), exact),
            ),
    {
        Expression::BinaryExpression(BinaryExpression::In(Box::new(a), Box::new(b), exact))
    }
}

impl FunctionExpression {
    /// A function call expression.
    pub fn function(name: String, args: Vec<Expression>) -> (r: Expression)
        ensures
            r == Expression::FunctionExpression(FunctionExpression { name, args }),
    {
        Expression::FunctionExpression(FunctionExpression { name, args })
    }
}

impl Literal {
    /// The literal is the blank literal.
    pub fn is_blank(&self) -> (r: bool)
        ensures
            r == (self is Blank),
    {
        match self {
            Literal::Blank => true,
            _ => false,
        }
    }

    /// The literal is anything but the blank literal.
    pub fn is_not_blank(&self) -> (r: bool)
        ensures
            r == !(self is Blank),
    {
        !self.is_blank()
    }
}

} // verus!

//! Runtime values: the tagged union a program evaluates to, with its
//! mathematical mirror used in contracts.
use vstd::prelude::*;

use crate::numeric::is_nan_bits;
use crate::numeric::num_eq;
use crate::textops::str_lt;

verus! {

broadcast use vstd::std_specs::vec::group_vec_axioms, vstd::seq::group_seq_axioms;

/// A calendar date: no time of day, no time zone.  Dates compare
/// chronologically, which on these fields is lexicographic.
#[derive(Debug, Clone, Copy, PartialEq, Eq, Structural)]
pub struct Date {
    pub year: i64,
    pub month: u8,
    pub day: u8,
}

/// A single key that orders dates chronologically (for valid
/// year/month/day triples).
pub open spec fn date_key(d: Date) -> int {
    (d.year as int) * 0x10000 + (d.month as int) * 0x100 + (d.day as int)
}

impl Date {
    /// Chronological `<` on dates.
    pub fn lt(&self, other: &Date) -> (r: bool)
        ensures
            r == (date_key(*self) < date_key(*other)),
    {
        if self.year != other.year {
            self.year < other.year
        } else if self.month != other.month {
            self.month < other.month
        } else {
            self.day < other.day
        }
    }

    /// Chronological `<=` on dates.
    pub fn le(&self, other: &Date) -> (r: bool)
        ensures
            r == (date_key(*self) <= date_key(*other)),
    {
        if self.year != other.year {
            self.year < other.year
        } else if self.month != other.month {
            self.month < other.month
        } else {
            self.day <= other.day
        }
    }
}

/// A mapping from integer codes to text labels.
#[derive(Debug)]
pub struct OptionSet {
    pub options: Vec<(i64, String)>,
}

/// A record: field names mapped to values, kept sorted by name so that
/// records built in any order compare equal.
#[derive(Debug)]
pub struct Record {
    pub fields: Vec<(String, DataValue)>,
}

/// A runtime value.  `Number` carries the IEEE-754 binary64 bit pattern of
/// the number (see `numeric`).
#[derive(Debug)]
pub enum DataValue {
    Date(Date),
    Number(u64),
    Boolean(bool),
    OptionSet(OptionSet),
    Text(String),
    Image(String),
    Hyperlink(String),
    Media(String),
    Record(Record),
    Table(Vec<Record>),
    Blank,
}

/// The mathematical mirror of a `DataValue`: text as character sequences,
/// records as ordered sequences of named values.
pub enum Val {
    Date(Date),
    Num(u64),
    Bool(bool),
    Opt(Seq<(i64, Seq<char>)>),
    Text(Seq<char>),
    Image(Seq<char>),
    Link(Seq<char>),
    Media(Seq<char>),
    Rec(Seq<(Seq<char>, Val)>),
    Tab(Seq<Seq<(Seq<char>, Val)>>),
    Blank,
}

/// The mirror of one record's fields.
pub open spec fn fields_view(fs: Seq<(String, DataValue)>) -> Seq<(Seq<char>, Val)>
    decreases fs,
{
    if fs.len() == 0 {
        Seq::empty()
    } else {
        fields_view(fs.drop_last()).push((fs.last().0@, dv_view(fs.last().1)))
    }
}

/// The mirror of a table's rows.
pub open spec fn rows_view(rs: Seq<Record>) -> Seq<Seq<(Seq<char>, Val)>>
    decreases rs,
{
    if rs.len() == 0 {
        Seq::empty()
    } else {
        rows_view(rs.drop_last()).push(fields_view(rs.last().fields@))
    }
}

/// A field list mirrors its source pointwise.
pub broadcast proof fn lemma_fields_view_len(fs: Seq<(String, DataValue)>)
    ensures
        (#[trigger] fields_view(fs)).len() == fs.len(),
    decreases fs,
{
    if fs.len() > 0 {
        lemma_fields_view_len(fs.drop_last());
    }
}

/// Each mirrored field is the mirror of the field at the same place.
pub broadcast proof fn lemma_fields_view_index(fs: Seq<(String, DataValue)>, i: int)
    requires
        0 <= i < fs.len(),
    ensures
        (#[trigger] fields_view(fs)[i]) == (fs[i].0@, dv_view(fs[i].1)),
    decreases fs,
{
    lemma_fields_view_len(fs);
    if fs.len() > 0 && i < fs.len() - 1 {
        lemma_fields_view_index(fs.drop_last(), i);
    }
}

/// A row list mirrors its source pointwise.
pub broadcast proof fn lemma_rows_view_len(rs: Seq<Record>)
    ensures
        (#[trigger] rows_view(rs)).len() == rs.len(),
    decreases rs,
{
    if rs.len() > 0 {
        lemma_rows_view_len(rs.drop_last());
    }
}

/// Each mirrored row is the mirror of the record at the same place.
pub broadcast proof fn lemma_rows_view_index(rs: Seq<Record>, i: int)
    requires
        0 <= i < rs.len(),
    ensures
        (#[trigger] rows_view(rs)[i]) == fields_view(rs[i].fields@),
    decreases rs,
{
    lemma_rows_view_len(rs);
    if rs.len() > 0 && i < rs.len() - 1 {
        lemma_rows_view_index(rs.drop_last(), i);
    }
}

/// The pointwise description of the mirrors, for broadcast use.
pub broadcast group group_view_lemmas {
    lemma_fields_view_len,
    lemma_fields_view_index,
    lemma_rows_view_len,
    lemma_rows_view_index,
    lemma_opts_view_len,
    lemma_opts_view_index,
}

/// The mirror of an option set's entries.
pub open spec fn opts_view(os: Seq<(i64, String)>) -> Seq<(i64, Seq<char>)>
    decreases os,
{
    if os.len() == 0 {
        Seq::empty()
    } else {
        opts_view(os.drop_last()).push((os.last().0, os.last().1@))
    }
}

/// An entry list mirrors its source pointwise.
pub broadcast proof fn lemma_opts_view_len(os: Seq<(i64, String)>)
    ensures
        (#[trigger] opts_view(os)).len() == os.len(),
    decreases os,
{
    if os.len() > 0 {
        lemma_opts_view_len(os.drop_last());
    }
}

/// Each mirrored entry is the mirror of the entry at the same place.
pub broadcast proof fn lemma_opts_view_index(os: Seq<(i64, String)>, i: int)
    requires
        0 <= i < os.len(),
    ensures
        (#[trigger] opts_view(os)[i]) == (os[i].0, os[i].1@),
    decreases os,
{
    lemma_opts_view_len(os);
    if os.len() > 0 && i < os.len() - 1 {
        lemma_opts_view_index(os.drop_last(), i);
    }
}

/// Mirroring rows distributes over concatenation.
pub proof fn lemma_rows_view_concat(a: Seq<Record>, b: Seq<Record>)
    ensures
        rows_view(a + b) == rows_view(a) + rows_view(b),
    decreases b,
{
    if b.len() == 0 {
        assert(a + b =~= a);
        assert(rows_view(a) + rows_view(b) =~= rows_view(a));
    } else {
        lemma_rows_view_concat(a, b.drop_last());
        assert((a + b).drop_last() =~= a + b.drop_last());
        assert((a + b).last() == b.last());
        assert(rows_view(a + b) == rows_view(a + b.drop_last()).push(
            fields_view(b.last().fields@),
        ));
        assert(rows_view(a) + rows_view(b) =~= (rows_view(a) + rows_view(b.drop_last())).push(
            fields_view(b.last().fields@),
        ));
    }
}

/// The mirror of a value.
pub open spec fn dv_view(v: DataValue) -> Val
    decreases v,
{
    match v {
        DataValue::Date(d) => Val::Date(d),
        DataValue::Number(b) => Val::Num(b),
        DataValue::Boolean(b) => Val::Bool(b),
        DataValue::OptionSet(o) => Val::Opt(opts_view(o.options@)),
        DataValue::Text(s) => Val::Text(s@),
        DataValue::Image(s) => Val::Image(s@),
        DataValue::Hyperlink(s) => Val::Link(s@),
        DataValue::Media(s) => Val::Media(s@),
        DataValue::Record(r) => Val::Rec(fields_view(r.fields@)),
        DataValue::Table(t) => Val::Tab(rows_view(t@)),
        DataValue::Blank => Val::Blank,
    }
}

impl View for DataValue {
    type V = Val;

    open spec fn view(&self) -> Val {
        dv_view(*self)
    }
}

impl View for Record {
    type V = Seq<(Seq<char>, Val)>;

    open spec fn view(&self) -> Seq<(Seq<char>, Val)> {
        fields_view(self.fields@)
    }
}

/// Language equality of two field lists: same length, same names, equal
/// values, in the same order.
pub open spec fn fields_eq(x: Seq<(Seq<char>, Val)>, y: Seq<(Seq<char>, Val)>) -> bool
    decreases x,
{
    &&& x.len() == y.len()
    &&& forall|i: int|
        0 <= i < x.len() ==> (#[trigger] x[i]).0 == y[i].0 && val_eq(x[i].1, y[i].1)
}

/// Language equality of two tables: same rows, in order.
pub open spec fn rows_eq(x: Seq<Seq<(Seq<char>, Val)>>, y: Seq<Seq<(Seq<char>, Val)>>) -> bool
    decreases x,
{
    &&& x.len() == y.len()
    &&& forall|i: int| 0 <= i < x.len() ==> fields_eq(#[trigger] x[i], y[i])
}

/// Equality as the language defines it: only like variants compare equal,
/// numbers by IEEE-754 equality (so no NaN equals anything, and the two
/// zeros are equal), Blank equals Blank, records and tables structurally.
pub open spec fn val_eq(a: Val, b: Val) -> bool
    decreases a,
{
    match (a, b) {
        (Val::Num(x), Val::Num(y)) => num_eq(x, y),
        (Val::Date(x), Val::Date(y)) => x == y,
        (Val::Bool(x), Val::Bool(y)) => x == y,
        (Val::Opt(x), Val::Opt(y)) => x == y,
        (Val::Text(x), Val::Text(y)) => x == y,
        (Val::Image(x), Val::Image(y)) => x == y,
        (Val::Link(x), Val::Link(y)) => x == y,
        (Val::Media(x), Val::Media(y)) => x == y,
        (Val::Rec(x), Val::Rec(y)) => fields_eq(x, y),
        (Val::Tab(x), Val::Tab(y)) => rows_eq(x, y),
        (Val::Blank, Val::Blank) => true,
        _ => false,
    }
}

/// A NaN hides somewhere inside the value.
pub open spec fn val_has_nan(v: Val) -> bool
    decreases v,
{
    match v {
        Val::Num(b) => is_nan_bits(b),
        Val::Rec(fs) => exists|i: int| 0 <= i < fs.len() && val_has_nan(#[trigger] fs[i].1),
        Val::Tab(rs) => exists|i: int, j: int|
            0 <= i < rs.len() && 0 <= j < rs[i].len() && val_has_nan(#[trigger] rs[i][j].1),
        _ => false,
    }
}

/// Every value that holds no NaN equals itself; in particular Blank equals
/// Blank.
pub proof fn lemma_val_eq_reflexive(v: Val)
    requires
        !val_has_nan(v),
    ensures
        val_eq(v, v),
    decreases v,
{
    match v {
        Val::Rec(fs) => {
            assert forall|i: int| 0 <= i < fs.len() implies fs[i].0 == fs[i].0 && val_eq(
                #[trigger] fs[i].1,
                fs[i].1,
            ) by {
                lemma_val_eq_reflexive(fs[i].1);
            }
        },
        Val::Tab(rs) => {
            assert forall|i: int| 0 <= i < rs.len() implies fields_eq(#[trigger] rs[i], rs[i]) by {
                assert forall|j: int| 0 <= j < rs[i].len() implies rs[i][j].0 == rs[i][j].0
                    && val_eq(#[trigger] rs[i][j].1, rs[i][j].1) by {
                    lemma_val_eq_reflexive(rs[i][j].1);
                }
            }
        },
        _ => {},
    }
}

/// Language equality on one record's fields, executably.
pub fn fields_equal(x: &Vec<(String, DataValue)>, y: &Vec<(String, DataValue)>) -> (r: bool)
    ensures
        r == fields_eq(fields_view(x@), fields_view(y@)),
    decreases x@,
{
    broadcast use group_view_lemmas;

    proof {
        lemma_fields_view_len(x@);
        lemma_fields_view_len(y@);
    }
    if x.len() != y.len() {
        return false;
    }
    let mut i: usize = 0;
    while i < x.len()
        invariant
            0 <= i <= x@.len(),
            x@.len() == y@.len(),
            fields_view(x@).len() == x@.len(),
            fields_view(y@).len() == y@.len(),
            forall|j: int|
                0 <= j < i ==> (#[trigger] fields_view(x@)[j]).0 == fields_view(y@)[j].0
                    && val_eq(fields_view(x@)[j].1, fields_view(y@)[j].1),
        decreases x@.len() - i,
    {
        proof {
            lemma_fields_view_len(x@);
            lemma_fields_view_len(y@);
            lemma_fields_view_index(x@, i as int);
            lemma_fields_view_index(y@, i as int);
        }
        let keys_same = x[i].0 == y[i].0;
        if !keys_same {
            proof {
                assert(fields_view(x@)[i as int].0 != fields_view(y@)[i as int].0);
                assert(!fields_eq(fields_view(x@), fields_view(y@))) by {
                    if fields_eq(fields_view(x@), fields_view(y@)) {
                        assert(fields_view(x@)[i as int].0 == fields_view(y@)[i as int].0);
                    }
                }
            }
            return false;
        }
        proof {
            assert(decreases_to!(x@ => x@[i as int]));
            assert(decreases_to!(x@[i as int] => x@[i as int].1));
        }
        if !val_equal(&x[i].1, &y[i].1) {
            proof {
                assert(!val_eq(fields_view(x@)[i as int].1, fields_view(y@)[i as int].1));
                assert(!fields_eq(fields_view(x@), fields_view(y@))) by {
                    if fields_eq(fields_view(x@), fields_view(y@)) {
                        assert(val_eq(fields_view(x@)[i as int].1, fields_view(y@)[i as int].1));
                    }
                }
            }
            return false;
        }
        i = i + 1;
    }
    true
}

/// Language equality of two option sets, executably.
pub fn opts_equal(x: &OptionSet, y: &OptionSet) -> (r: bool)
    ensures
        r == (opts_view(x.options@) == opts_view(y.options@)),
{
    proof {
        lemma_opts_view_len(x.options@);
        lemma_opts_view_len(y.options@);
    }
    if x.options.len() != y.options.len() {
        return false;
    }
    let mut i: usize = 0;
    while i < x.options.len()
        invariant
            0 <= i <= x.options@.len(),
            x.options@.len() == y.options@.len(),
            opts_view(x.options@).len() == x.options@.len(),
            opts_view(y.options@).len() == y.options@.len(),
            forall|j: int|
                0 <= j < i ==> (#[trigger] opts_view(x.options@)[j]) == opts_view(y.options@)[j],
        decreases x.options@.len() - i,
    {
        proof {
            lemma_opts_view_index(x.options@, i as int);
            lemma_opts_view_index(y.options@, i as int);
        }
        let codes_same = x.options[i].0 == y.options[i].0;
        let texts_same = x.options[i].1 == y.options[i].1;
        if !codes_same || !texts_same {
            proof {
                assert(opts_view(x.options@)[i as int] != opts_view(y.options@)[i as int]);
            }
            return false;
        }
        i = i + 1;
    }
    proof {
        assert(opts_view(x.options@) =~= opts_view(y.options@));
    }
    true
}

/// Language equality of two row lists, executably.
pub fn rows_equal(x: &Vec<Record>, y: &Vec<Record>) -> (r: bool)
    ensures
        r == rows_eq(rows_view(x@), rows_view(y@)),
    decreases x@,
{
    proof {
        lemma_rows_view_len(x@);
        lemma_rows_view_len(y@);
    }
    if x.len() != y.len() {
        return false;
    }
    let mut i: usize = 0;
    while i < x.len()
        invariant
            0 <= i <= x@.len(),
            x@.len() == y@.len(),
            rows_view(x@).len() == x@.len(),
            rows_view(y@).len() == y@.len(),
            forall|j: int| 0 <= j < i ==> fields_eq(#[trigger] rows_view(x@)[j], rows_view(y@)[j]),
        decreases x@.len() - i,
    {
        proof {
            lemma_rows_view_index(x@, i as int);
            lemma_rows_view_index(y@, i as int);
            assert(decreases_to!(x@ => x@[i as int]));
            assert(decreases_to!(x@[i as int] => x@[i as int].fields));
            assert(decreases_to!(x@[i as int].fields => x@[i as int].fields@));
        }
        if !fields_equal(&x[i].fields, &y[i].fields) {
            proof {
                assert(!fields_eq(rows_view(x@)[i as int], rows_view(y@)[i as int]));
                assert(!rows_eq(rows_view(x@), rows_view(y@))) by {
                    if rows_eq(rows_view(x@), rows_view(y@)) {
                        assert(fields_eq(rows_view(x@)[i as int], rows_view(y@)[i as int]));
                    }
                }
            }
            return false;
        }
        i = i + 1;
    }
    true
}

/// Language equality of two values, executably.
pub fn val_equal(a: &DataValue, b: &DataValue) -> (r: bool)
    ensures
        r == val_eq(a@, b@),
    decreases *a,
{
    match (a, b) {
        (DataValue::Number(x), DataValue::Number(y)) => crate::numeric::ieee_eq(*x, *y),
        (DataValue::Date(x), DataValue::Date(y)) => x.year == y.year && x.month == y.month
            && x.day == y.day,
        (DataValue::Boolean(x), DataValue::Boolean(y)) => *x == *y,
        (DataValue::OptionSet(x), DataValue::OptionSet(y)) => opts_equal(x, y),
        (DataValue::Text(x), DataValue::Text(y)) => *x == *y,
        (DataValue::Image(x), DataValue::Image(y)) => *x == *y,
        (DataValue::Hyperlink(x), DataValue::Hyperlink(y)) => *x == *y,
        (DataValue::Media(x), DataValue::Media(y)) => *x == *y,
        (DataValue::Record(x), DataValue::Record(y)) => {
            proof {
                assert(decreases_to!(*a => *x));
                assert(decreases_to!(*x => x.fields));
                assert(decreases_to!(x.fields => x.fields@));
            }
            fields_equal(&x.fields, &y.fields)
        },
        (DataValue::Table(x), DataValue::Table(y)) => {
            proof {
                assert(decreases_to!(*a => *x));
                assert(decreases_to!(*x => x@));
            }
            rows_equal(x, y)
        },
        (DataValue::Blank, DataValue::Blank) => true,
        _ => {
            proof {
                assert(!val_eq(a@, b@));
            }
            false
        },
    }
}

impl DataValue {
    /// The value is the distinguished absent value.
    pub fn is_blank(&self) -> (r: bool)
        ensures
            r == (self@ is Blank),
    {
        match self {
            DataValue::Blank => true,
            _ => false,
        }
    }

    /// The value is anything but the distinguished absent value.
    pub fn is_not_blank(&self) -> (r: bool)
        ensures
            r == !(self@ is Blank),
    {
        !self.is_blank()
    }
}

/// A copy of one record's fields whose mirror is the same.
pub fn duplicate_fields(fs: &Vec<(String, DataValue)>) -> (r: Vec<(String, DataValue)>)
    ensures
        fields_view(r@) == fields_view(fs@),
        r@.len() == fs@.len(),
        forall|j: int|
            0 <= j < fs@.len() ==> (#[trigger] r@[j]).0 == fs@[j].0 && dv_view(r@[j].1) == dv_view(
                fs@[j].1,
            ),
    decreases fs@,
{
    let mut r: Vec<(String, DataValue)> = Vec::new();
    let mut i: usize = 0;
    while i < fs.len()
        invariant
            0 <= i <= fs@.len(),
            r@.len() == i,
            forall|j: int|
                0 <= j < i ==> (#[trigger] r@[j]).0 == fs@[j].0 && dv_view(r@[j].1) == dv_view(
                    fs@[j].1,
                ),
        decreases fs@.len() - i,
    {
        proof {
            assert(decreases_to!(fs@ => fs@[i as int]));
            assert(decreases_to!(fs@[i as int] => fs@[i as int].1));
        }
        let key = fs[i].0.clone();
        let val = duplicate_value(&fs[i].1);
        r.push((key, val));
        i = i + 1;
    }
    proof {
        lemma_fields_view_len(r@);
        lemma_fields_view_len(fs@);
        assert forall|k: int| 0 <= k < fs@.len() implies fields_view(r@)[k] == fields_view(fs@)[k]
            by {
            lemma_fields_view_index(r@, k);
            lemma_fields_view_index(fs@, k);
        }
        assert(fields_view(r@) =~= fields_view(fs@));
    }
    r
}

/// A copy of a row list whose mirror is the same.
pub fn duplicate_rows(rs: &Vec<Record>) -> (r: Vec<Record>)
    ensures
        rows_view(r@) == rows_view(rs@),
    decreases rs@,
{
    let mut r: Vec<Record> = Vec::new();
    let mut i: usize = 0;
    while i < rs.len()
        invariant
            0 <= i <= rs@.len(),
            r@.len() == i,
            forall|j: int|
                0 <= j < i ==> fields_view((#[trigger] r@[j]).fields@) == fields_view(
                    rs@[j].fields@,
                ),
        decreases rs@.len() - i,
    {
        proof {
            assert(decreases_to!(rs@ => rs@[i as int]));
            assert(decreases_to!(rs@[i as int] => rs@[i as int].fields));
            assert(decreases_to!(rs@[i as int].fields => rs@[i as int].fields@));
        }
        let fields = duplicate_fields(&rs[i].fields);
        r.push(Record { fields });
        i = i + 1;
    }
    proof {
        lemma_rows_view_len(r@);
        lemma_rows_view_len(rs@);
        assert forall|k: int| 0 <= k < rs@.len() implies rows_view(r@)[k] == rows_view(rs@)[k] by {
            lemma_rows_view_index(r@, k);
            lemma_rows_view_index(rs@, k);
        }
        assert(rows_view(r@) =~= rows_view(rs@));
    }
    r
}

/// A copy of a value whose mirror is the same.
pub fn duplicate_value(v: &DataValue) -> (r: DataValue)
    ensures
        r@ == v@,
    decreases *v,
{
    match v {
        DataValue::Date(d) => DataValue::Date(*d),
        DataValue::Number(b) => DataValue::Number(*b),
        DataValue::Boolean(b) => DataValue::Boolean(*b),
        DataValue::OptionSet(o) => {
            let mut options: Vec<(i64, String)> = Vec::new();
            let mut i: usize = 0;
            while i < o.options.len()
                invariant
                    0 <= i <= o.options@.len(),
                    options@.len() == i,
                    forall|j: int| 0 <= j < i ==> options@[j] == o.options@[j],
                decreases o.options@.len() - i,
            {
                let code = o.options[i].0;
                let label = o.options[i].1.clone();
                options.push((code, label));
                i = i + 1;
            }
            proof {
                assert(options@ =~= o.options@);
            }
            DataValue::OptionSet(OptionSet { options })
        },
        DataValue::Text(s) => DataValue::Text(s.clone()),
        DataValue::Image(s) => DataValue::Image(s.clone()),
        DataValue::Hyperlink(s) => DataValue::Hyperlink(s.clone()),
        DataValue::Media(s) => DataValue::Media(s.clone()),
        DataValue::Record(rec) => {
            proof {
                assert(decreases_to!(*v => *rec));
                assert(decreases_to!(*rec => rec.fields));
                assert(decreases_to!(rec.fields => rec.fields@));
            }
            DataValue::Record(Record { fields: duplicate_fields(&rec.fields) })
        },
        DataValue::Table(t) => {
            proof {
                assert(decreases_to!(*v => *t));
                assert(decreases_to!(*t => t@));
            }
            DataValue::Table(duplicate_rows(t))
        },
        DataValue::Blank => DataValue::Blank,
    }
}

impl DataValue {
    /// A deep copy of the value; its mirror is the same.
    pub fn duplicate(&self) -> (r: DataValue)
        ensures
            r@ == self@,
    {
        duplicate_value(self)
    }
}


/// Where a field named `k` belongs in a name-sorted field list: after
/// every name below it.
pub open spec fn dv_field_pos(fs: Seq<(String, DataValue)>, k: Seq<char>) -> int
    decreases fs.len(),
{
    if fs.len() == 0 {
        0
    } else if str_lt(fs[0].0@, k) {
        1 + dv_field_pos(fs.skip(1), k)
    } else {
        0
    }
}

/// A name-sorted field list with the pair bound: an existing binding of
/// the name is replaced, a new one is put at its sorted place.
pub open spec fn dv_field_insert(fs: Seq<(String, DataValue)>, p: (String, DataValue)) -> Seq<
    (String, DataValue),
> {
    let pos = dv_field_pos(fs, p.0@);
    if pos < fs.len() && fs[pos].0@ == p.0@ {
        fs.update(pos, p)
    } else {
        fs.insert(pos, p)
    }
}

/// The insertion place never passes the end of the list.
pub proof fn lemma_dv_field_pos_range(fs: Seq<(String, DataValue)>, k: Seq<char>)
    ensures
        0 <= dv_field_pos(fs, k) <= fs.len(),
    decreases fs.len(),
{
    if fs.len() > 0 && str_lt(fs[0].0@, k) {
        lemma_dv_field_pos_range(fs.skip(1), k);
    }
}

/// Folds the first `n` pairs into a sorted field list.
pub open spec fn dv_fields_fold_upto(ps: Seq<(String, DataValue)>, n: int) -> Seq<
    (String, DataValue),
>
    decreases n,
{
    if n <= 0 {
        Seq::empty()
    } else {
        dv_field_insert(dv_fields_fold_upto(ps, n - 1), ps[n - 1])
    }
}

/// Folds every pair into a sorted field list.
pub open spec fn dv_fields_fold(ps: Seq<(String, DataValue)>) -> Seq<(String, DataValue)> {
    dv_fields_fold_upto(ps, ps.len() as int)
}

/// Binds a pair into a sorted field vector, keeping it sorted; mirrors
/// `dv_field_insert`.
#[verifier::loop_isolation(false)]
pub fn dv_insert_field(fs: &mut Vec<(String, DataValue)>, p: (String, DataValue))
    ensures
        final(fs)@ == dv_field_insert(old(fs)@, p),
{
    let ghost fsv = fs@;
    proof {
        lemma_dv_field_pos_range(fsv, p.0@);
        assert(fsv.skip(0) =~= fsv);
    }
    let mut i: usize = 0;
    while i < fs.len() && crate::textops::str_less(fs[i].0.as_str(), p.0.as_str())
        invariant
            0 <= i <= fs@.len(),
            dv_field_pos(fsv, p.0@) == i + dv_field_pos(fsv.skip(i as int), p.0@),
        decreases fs@.len() - i,
    {
        proof {
            assert(fsv.skip(i as int)[0] == fsv[i as int]);
            assert(fsv.skip(i as int).skip(1) =~= fsv.skip(i + 1));
        }
        i = i + 1;
    }
    proof {
        if i < fs@.len() {
            assert(fsv.skip(i as int)[0] == fsv[i as int]);
        }
        assert(dv_field_pos(fsv, p.0@) == i);
    }
    if i < fs.len() && crate::textops::str_same(fs[i].0.as_str(), p.0.as_str()) {
        fs.set(i, p);
    } else {
        fs.insert(i, p);
    }
}

impl Record {
    /// Builds a record from key/value pairs: fields are kept sorted by
    /// name, and a later pair with an already-bound name wins.
    pub fn from(fields: Vec<(String, DataValue)>) -> (r: Record)
        ensures
            r.fields@ == dv_fields_fold(fields@),
    {
        let ghost psv = fields@;
        let mut out: Vec<(String, DataValue)> = Vec::new();
        let mut rest = fields;
        proof {
            assert(psv.skip(0) =~= psv);
        }
        while rest.len() > 0
            invariant
                out@ == dv_fields_fold_upto(psv, psv.len() - rest@.len()),
                rest@ == psv.skip(psv.len() - rest@.len()),
                rest@.len() <= psv.len(),
            decreases rest@.len(),
        {
            let ghost done = psv.len() - rest@.len();
            let ghost prev = rest@;
            let pair = rest.remove(0);
            proof {
                assert(psv.skip(done)[0] == psv[done]);
                assert(rest@ =~= psv.skip(done + 1));
            }
            dv_insert_field(&mut out, pair);
        }
        Record { fields: out }
    }
}

impl PartialEq for DataValue {
    /// Equality of values as the language defines it; tests and hosts see
    /// the same notion the `=` operator uses.
    fn eq(&self, other: &DataValue) -> (r: bool) {
        val_equal(self, other)
    }
}

impl vstd::std_specs::cmp::PartialEqSpecImpl for DataValue {
    open spec fn obeys_eq_spec() -> bool {
        true
    }

    open spec fn eq_spec(&self, other: &DataValue) -> bool {
        val_eq(self@, other@)
    }
}

} // verus!

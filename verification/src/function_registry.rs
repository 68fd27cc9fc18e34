//! The function registry: names mapped to callable built-in functions.
//! Registration is last-writer-wins.
use vstd::prelude::*;

verus! {

broadcast use vstd::std_specs::vec::group_vec_axioms, vstd::seq::group_seq_axioms;

/// A callable of the language.  Each variant is one of the built-in
/// functions the evaluator can dispatch to; registration binds a name to
/// one of them.
#[derive(Debug, Clone, Copy, PartialEq, Eq, Structural)]
pub enum Function {
    Table,
    First,
    Last,
    Index,
    Filter,
    SetVar,
    If,
    And,
    Or,
    Not,
    Abs,
    Sqrt,
    Left,
    Mid,
    Right,
    Upper,
    Lower,
    Average,
    Sum,
    Min,
    Max,
}

/// The bindings as a mapping; a later binding of a name shadows an
/// earlier one.
pub open spec fn reg_map(es: Seq<(String, Function)>) -> Map<Seq<char>, Function>
    decreases es,
{
    if es.len() == 0 {
        Map::empty()
    } else {
        reg_map(es.drop_last()).insert(es.last().0@, es.last().1)
    }
}

/// The newest binding of a name, if any.
pub open spec fn reg_lookup(es: Seq<(String, Function)>, name: Seq<char>) -> Option<Function>
    decreases es,
{
    if es.len() == 0 {
        Option::None
    } else if es.last().0@ == name {
        Option::Some(es.last().1)
    } else {
        reg_lookup(es.drop_last(), name)
    }
}

/// The newest binding is exactly what the mapping holds.
pub proof fn lemma_reg_lookup_map(es: Seq<(String, Function)>, name: Seq<char>)
    ensures
        match reg_lookup(es, name) {
            Option::Some(f) => reg_map(es).contains_key(name) && reg_map(es)[name] == f,
            Option::None => !reg_map(es).contains_key(name),
        },
    decreases es,
{
    if es.len() > 0 {
        lemma_reg_lookup_map(es.drop_last(), name);
    }
}

/// Maps names to callables.
#[derive(Debug)]
pub struct FunctionRegistry {
    entries: Vec<(String, Function)>,
}

impl View for FunctionRegistry {
    type V = Map<Seq<char>, Function>;

    closed spec fn view(&self) -> Map<Seq<char>, Function> {
        reg_map(self.entries@)
    }
}

impl FunctionRegistry {
    /// An empty registry.
    pub fn new() -> (r: FunctionRegistry)
        ensures
            r@ == Map::<Seq<char>, Function>::empty(),
    {
        FunctionRegistry { entries: Vec::new() }
    }

    /// Binds `name` to `function`; a later binding wins over an earlier
    /// one of the same name.
    pub fn register_function(&mut self, name: &str, function: Function)
        ensures
            final(self)@ == old(self)@.insert(name@, function),
    {
        self.entries.push((name.to_owned(), function));
        proof {
            assert(self.entries@.drop_last() =~= old(self).entries@);
        }
    }

    /// The callable bound to `name`, if any.
    pub fn get_function(&self, name: &str) -> (r: Option<Function>)
        ensures
            r == if self@.contains_key(name@) {
                Option::Some(self@[name@])
            } else {
                Option::<Function>::None
            },
    {
        proof {
            lemma_reg_lookup_map(self.entries@, name@);
        }
        let n = self.entries.len();
        let mut i: usize = n;
        proof {
            assert(self.entries@.subrange(0, n as int) =~= self.entries@);
        }
        while i > 0
            invariant
                0 <= i <= n,
                n == self.entries@.len(),
                reg_lookup(self.entries@, name@) == reg_lookup(
                    self.entries@.subrange(0, i as int),
                    name@,
                ),
            decreases i,
        {
            i = i - 1;
            proof {
                assert(self.entries@.subrange(0, i + 1).last() == self.entries@[i as int]);
                assert(self.entries@.subrange(0, i + 1).drop_last() =~= self.entries@.subrange(
                    0,
                    i as int,
                ));
            }
            if crate::textops::str_same(self.entries[i].0.as_str(), name) {
                proof {
                    assert(self.entries@.subrange(0, i + 1).last().0@ == name@);
                    assert(reg_lookup(self.entries@, name@) == Option::Some(
                        self.entries@[i as int].1,
                    ));
                    lemma_reg_lookup_map(self.entries@, name@);
                    assert(self@.contains_key(name@));
                    assert(self@[name@] == self.entries@[i as int].1);
                }
                return Some(self.entries[i].1);
            }
        }
        proof {
            assert(self.entries@.subrange(0, 0).len() == 0);
        }
        None
    }
}

} // verus!

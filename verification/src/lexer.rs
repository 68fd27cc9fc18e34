//! The parser: a scannerless descent over the source characters,
//! mirroring the grammar's ordered choices and committed matches.
//!
//! The `p_` spec functions define what every production yields; the
//! executable parser is proved to return exactly the mirrored tree.
use vstd::prelude::*;

use crate::ast::BinaryExpression;
use crate::ast::Context;
use crate::ast::ExprV;
use crate::ast::Expression;
use crate::ast::FunctionExpression;
use crate::ast::LitV;
use crate::ast::Literal;
use crate::ast::Record;
use crate::ast::UnaryExpression;
use crate::ast::ev_view;
use crate::ast::lv_view;
use crate::ast::field_insert;
use crate::evaluator::ErrV;
use crate::evaluator::EvaluationError;
use crate::numeric::decimal_bits;
use crate::numeric::int_bits;

verus! {

broadcast use vstd::seq::group_seq_axioms, vstd::std_specs::vec::group_vec_axioms;

/// A whitespace character of the broad class: space, newline or tab.
pub open spec fn is_ws(c: char) -> bool {
    c == ' ' || c == '\n' || c == '\t'
}

/// A decimal digit.
pub open spec fn is_digit(c: char) -> bool {
    '0' <= c <= '9'
}

/// A letter, the first character of an identifier.
pub open spec fn is_alpha(c: char) -> bool {
    ('a' <= c <= 'z') || ('A' <= c <= 'Z')
}

/// A letter, digit or underscore, a later character of an identifier.
pub open spec fn is_alnum(c: char) -> bool {
    is_alpha(c) || is_digit(c) || c == '_'
}

/// The first place at or after `i` that does not hold broad whitespace.
pub open spec fn skip_ws(s: Seq<char>, i: int) -> int
    decreases s.len() - i,
    when 0 <= i <= s.len()
{
    if i < s.len() && is_ws(s[i]) {
        skip_ws(s, i + 1)
    } else {
        i
    }
}

/// The first place at or after `i` that does not hold a space.
pub open spec fn skip_sp(s: Seq<char>, i: int) -> int
    decreases s.len() - i,
    when 0 <= i <= s.len()
{
    if i < s.len() && s[i] == ' ' {
        skip_sp(s, i + 1)
    } else {
        i
    }
}

/// The end of the digit run that starts at `i`.
pub open spec fn scan_digits(s: Seq<char>, i: int) -> int
    decreases s.len() - i,
    when 0 <= i <= s.len()
{
    if i < s.len() && is_digit(s[i]) {
        scan_digits(s, i + 1)
    } else {
        i
    }
}

/// The end of the identifier-tail run that starts at `i`.
pub open spec fn scan_alnum(s: Seq<char>, i: int) -> int
    decreases s.len() - i,
    when 0 <= i <= s.len()
{
    if i < s.len() && is_alnum(s[i]) {
        scan_alnum(s, i + 1)
    } else {
        i
    }
}

/// The position results of the scanners stay within the text.
pub proof fn lemma_scan_bounds(s: Seq<char>, i: int)
    requires
        0 <= i <= s.len(),
    ensures
        i <= skip_ws(s, i) <= s.len(),
        i <= skip_sp(s, i) <= s.len(),
        i <= scan_digits(s, i) <= s.len(),
        i <= scan_alnum(s, i) <= s.len(),
    decreases s.len() - i,
{
    if i < s.len() {
        lemma_scan_bounds(s, i + 1);
    }
}

/// The word `w` stands at place `i` of `s`.
pub open spec fn lit_at(s: Seq<char>, i: int, w: Seq<char>) -> bool {
    0 <= i && i + w.len() <= s.len() && s.subrange(i, i + w.len() as int) == w
}

/// The value of the digit run from `from` to `to`, read in base ten.
pub open spec fn dec_value(s: Seq<char>, from: int, to: int) -> int
    decreases to - from,
    when from <= to
{
    if to <= from {
        0
    } else {
        dec_value(s, from, to - 1) * 10 + (s[to - 1] as int - '0' as int)
    }
}

/// The end of a text literal's body: the place of the closing quote, if
/// the body runs on without a quote, newline or carriage return.
pub open spec fn scan_text(s: Seq<char>, i: int) -> Option<int>
    decreases s.len() - i,
    when 0 <= i <= s.len()
{
    if i >= s.len() {
        Option::None
    } else if s[i] == '\'' {
        Option::Some(i)
    } else if s[i] == '\n' || s[i] == '\r' {
        Option::None
    } else {
        scan_text(s, i + 1)
    }
}

/// An identifier at `i`: its characters and its end.
pub open spec fn p_ident(s: Seq<char>, i: int) -> Option<(Seq<char>, int)> {
    if i < s.len() && is_alpha(s[i]) {
        let end = scan_alnum(s, i + 1);
        Option::Some((s.subrange(i, end), end))
    } else {
        Option::None
    }
}

/// A literal at `i`: a real, an integer, a boolean, a text or a record
/// literal, tried in that order.
#[verifier::opaque]
pub open spec fn p_literal(s: Seq<char>, i: int) -> Option<(LitV, int)>
    decreases s.len() - i, 35int, 0int,
    when 0 <= i <= s.len()
    via p_literal_dec
{
    let start = if lit_at(s, i, "-"@) {
        i + 1
    } else {
        i
    };
    let d0 = scan_digits(s, start);
    if d0 > start && lit_at(s, d0, "."@) && scan_digits(s, d0 + 1) > d0 + 1 {
        let end = scan_digits(s, d0 + 1);
        match decimal_bits(s.subrange(i, end)) {
            Option::Some(bits) => Option::Some((LitV::NumL(bits), end)),
            Option::None => Option::None,
        }
    } else if d0 > start && -0x8000_0000_0000_0000 <= (if i < start {
        -dec_value(s, start, d0)
    } else {
        dec_value(s, start, d0)
    }) < 0x8000_0000_0000_0000 {
        let v = if i < start {
            -dec_value(s, start, d0)
        } else {
            dec_value(s, start, d0)
        };
        Option::Some((LitV::NumL(int_bits(v)), d0))
    } else if lit_at(s, i, "true"@) {
        Option::Some((LitV::BoolL(true), i + 4))
    } else if lit_at(s, i, "false"@) {
        Option::Some((LitV::BoolL(false), i + 5))
    } else if lit_at(s, i, "'"@) {
        match scan_text(s, i + 1) {
            Option::Some(q) => Option::Some((LitV::TextL(s.subrange(i + 1, q)), q + 1)),
            Option::None => Option::None,
        }
    } else if lit_at(s, i, "{"@) {
        p_record(s, i)
    } else {
        Option::None
    }
}

#[via_fn]
proof fn p_literal_dec(s: Seq<char>, i: int) {
}

/// A record literal at `i`: `{`, fields, `}`; fields are inserted in
/// sorted order, a later duplicate name winning.
#[verifier::opaque]
pub open spec fn p_record(s: Seq<char>, i: int) -> Option<(LitV, int)>
    decreases s.len() - i, 34int, 0int,
    when 0 <= i <= s.len()
    via p_record_dec
{
    if lit_at(s, i, "{"@) {
        let b = skip_ws(s, i + 1);
        match p_field(s, b) {
            Option::Some((k, v, j)) => if j > i && j <= s.len() {
                p_record_tail(s, i, k, v, j)
            } else {
                Option::None
            },
            Option::None => {
                let e = skip_ws(s, i + 1);
                if lit_at(s, e, "}"@) {
                    Option::Some((LitV::RecL(Seq::empty()), e + 1))
                } else {
                    Option::None
                }
            },
        }
    } else {
        Option::None
    }
}

/// The later fields and closing brace of a record literal, after its
/// first field.
#[verifier::opaque]
pub open spec fn p_record_tail(s: Seq<char>, i: int, k: Seq<char>, v: ExprV, j: int) -> Option<
    (LitV, int),
>
    decreases s.len() - i, 33int, 1int,
    when 0 <= i < j <= s.len()
{
    match p_fields_more(s, j, field_insert(Seq::empty(), k, v)) {
        Option::Some((fsv, j2)) => {
            let e = skip_ws(s, j2);
            if lit_at(s, e, "}"@) {
                Option::Some((LitV::RecL(fsv), e + 1))
            } else {
                Option::None
            }
        },
        Option::None => Option::None,
    }
}

#[via_fn]
proof fn p_record_dec(s: Seq<char>, i: int) {
    reveal_strlit("{");
    if 0 <= i <= s.len() && lit_at(s, i, "{"@) {
        lemma_scan_bounds(s, i + 1);
    }
}

/// One `name : expression` field at `i`.
#[verifier::opaque]
pub open spec fn p_field(s: Seq<char>, i: int) -> Option<(Seq<char>, ExprV, int)>
    decreases s.len() - i, 33int, 0int,
    when 0 <= i <= s.len()
    via p_field_dec
{
    match p_ident(s, i) {
        Option::Some((k, j1)) => {
            let a = skip_sp(s, j1);
            if lit_at(s, a, ":"@) {
                let b = skip_sp(s, a + 1);
                match p_expr(s, b) {
                    Option::Some((v, j)) => Option::Some((k, v, j)),
                    Option::None => Option::None,
                }
            } else {
                Option::None
            }
        },
        Option::None => Option::None,
    }
}

#[via_fn]
proof fn p_field_dec(s: Seq<char>, i: int) {
    reveal_strlit(":");
    if 0 <= i <= s.len() {
        if i < s.len() && is_alpha(s[i]) {
            lemma_scan_bounds(s, i + 1);
            let end = scan_alnum(s, i + 1);
            lemma_scan_bounds(s, end);
            let a = skip_sp(s, end);
            if lit_at(s, a, ":"@) {
                lemma_scan_bounds(s, a + 1);
            }
        }
    }
}

/// The later fields of a record literal, from the separator on.
#[verifier::opaque]
pub open spec fn p_fields_more(s: Seq<char>, i: int, acc: Seq<(Seq<char>, ExprV)>) -> Option<
    (Seq<(Seq<char>, ExprV)>, int),
>
    decreases s.len() - i, 32int, 0int,
    when 0 <= i <= s.len()
    via p_fields_more_dec
{
    let a = skip_sp(s, i);
    if lit_at(s, a, ","@) {
        let b = skip_sp(s, a + 1);
        match p_field(s, b) {
            Option::Some((k, v, j)) => if j > i && j <= s.len() {
                p_fields_more(s, j, field_insert(acc, k, v))
            } else {
                Option::Some((acc, i))
            },
            Option::None => Option::Some((acc, i)),
        }
    } else {
        Option::Some((acc, i))
    }
}

#[via_fn]
proof fn p_fields_more_dec(s: Seq<char>, i: int, acc: Seq<(Seq<char>, ExprV)>) {
    reveal_strlit(",");
    if 0 <= i <= s.len() {
        lemma_scan_bounds(s, i);
        let a = skip_sp(s, i);
        if lit_at(s, a, ","@) {
            lemma_scan_bounds(s, a + 1);
        }
    }
}

/// The later arguments of a function call, from the separator on.
#[verifier::opaque]
pub open spec fn p_args_more(s: Seq<char>, i: int, acc: Seq<ExprV>) -> Option<(Seq<ExprV>, int)>
    decreases s.len() - i, 31int, 0int,
    when 0 <= i <= s.len()
    via p_args_more_dec
{
    let a = skip_sp(s, i);
    if lit_at(s, a, ","@) {
        let b = skip_sp(s, a + 1);
        match p_expr(s, b) {
            Option::Some((e, j)) => if j > i && j <= s.len() {
                p_args_more(s, j, acc.push(e))
            } else {
                Option::Some((acc, i))
            },
            Option::None => Option::Some((acc, i)),
        }
    } else {
        Option::Some((acc, i))
    }
}

#[via_fn]
proof fn p_args_more_dec(s: Seq<char>, i: int, acc: Seq<ExprV>) {
    reveal_strlit(",");
    if 0 <= i <= s.len() {
        lemma_scan_bounds(s, i);
        let a = skip_sp(s, i);
        if lit_at(s, a, ","@) {
            lemma_scan_bounds(s, a + 1);
        }
    }
}

/// A primary form at `i`: a literal, a property, a function call, an
/// identifier or a parenthesized expression, tried in that order; the
/// first alternative to match is committed.
#[verifier::opaque]
pub open spec fn p_atom(s: Seq<char>, i: int) -> Option<(ExprV, int)>
    decreases s.len() - i, 37int, 0int,
    when 0 <= i <= s.len()
    via p_atom_dec
{
    match p_literal(s, i) {
        Option::Some((l, j)) => Option::Some((ExprV::LiteralV(l), j)),
        Option::None => match p_property(s, i) {
            Option::Some((e, j)) => Option::Some((e, j)),
            Option::None => match p_call(s, i) {
                Option::Some((e, j)) => Option::Some((e, j)),
                Option::None => match p_ident(s, i) {
                    Option::Some((name, j)) => Option::Some((ExprV::IdentifierV(name), j)),
                    Option::None => if lit_at(s, i, "("@) {
                        let b = skip_ws(s, i + 1);
                        match p_expr(s, b) {
                            Option::Some((e, j)) => if 0 <= j <= s.len() {
                                let c = skip_ws(s, j);
                                if lit_at(s, c, ")"@) {
                                    Option::Some((e, c + 1))
                                } else {
                                    Option::None
                                }
                            } else {
                                Option::None
                            },
                            Option::None => Option::None,
                        }
                    } else {
                        Option::None
                    },
                },
            },
        },
    }
}

#[via_fn]
proof fn p_atom_dec(s: Seq<char>, i: int) {
    reveal_strlit("(");
    if 0 <= i <= s.len() {
        if lit_at(s, i, "("@) {
            lemma_scan_bounds(s, i + 1);
        }
    }
}

/// A property form at `i`: a context keyword, a dot, a key.
#[verifier::opaque]
pub open spec fn p_property(s: Seq<char>, i: int) -> Option<(ExprV, int)> {
    if lit_at(s, i, "Parent."@) {
        match p_ident(s, i + 7) {
            Option::Some((k, j)) => Option::Some((ExprV::PropertyV(Context::Parent, k), j)),
            Option::None => Option::None,
        }
    } else if lit_at(s, i, "Self."@) {
        match p_ident(s, i + 5) {
            Option::Some((k, j)) => Option::Some((ExprV::PropertyV(Context::Self_, k), j)),
            Option::None => Option::None,
        }
    } else if lit_at(s, i, "ThisItem."@) {
        match p_ident(s, i + 9) {
            Option::Some((k, j)) => Option::Some((ExprV::PropertyV(Context::ThisItem, k), j)),
            Option::None => Option::None,
        }
    } else if lit_at(s, i, "ThisRecord."@) {
        match p_ident(s, i + 11) {
            Option::Some((k, j)) => Option::Some((ExprV::PropertyV(Context::ThisRecord, k), j)),
            Option::None => Option::None,
        }
    } else {
        Option::None
    }
}

/// A function call at `i`: a name, optional spaces, a parenthesized
/// argument list.
#[verifier::opaque]
pub open spec fn p_call(s: Seq<char>, i: int) -> Option<(ExprV, int)>
    decreases s.len() - i, 36int, 0int,
    when 0 <= i <= s.len()
{
    match p_ident(s, i) {
        Option::Some((name, j)) => if i <= j <= s.len() {
            p_call_tail(s, i, name, j)
        } else {
            Option::None
        },
        Option::None => Option::None,
    }
}

/// The parenthesized argument list of a call, after the name.
#[verifier::opaque]
pub open spec fn p_call_tail(s: Seq<char>, i: int, name: Seq<char>, j: int) -> Option<
    (ExprV, int),
>
    decreases s.len() - i, 35int, 1int,
    when 0 <= i <= j <= s.len()
    via p_call_tail_dec
{
    let a = skip_sp(s, j);
    if lit_at(s, a, "("@) {
        let b = skip_ws(s, a + 1);
        match p_expr(s, b) {
            Option::Some((e1, j1)) => if j1 > i && j1 <= s.len() {
                p_call_args(s, i, name, e1, j1)
            } else {
                Option::None
            },
            Option::None => {
                let c = skip_ws(s, b);
                if lit_at(s, c, ")"@) {
                    Option::Some((ExprV::CallV(name, Seq::empty()), c + 1))
                } else {
                    Option::None
                }
            },
        }
    } else {
        Option::None
    }
}

/// The later arguments and closing parenthesis of a call.
#[verifier::opaque]
pub open spec fn p_call_args(s: Seq<char>, i: int, name: Seq<char>, e1: ExprV, j1: int) -> Option<
    (ExprV, int),
>
    decreases s.len() - i, 35int, 0int,
    when 0 <= i < j1 <= s.len()
{
    match p_args_more(s, j1, seq![e1]) {
        Option::Some((args, j2)) => {
            let c = skip_ws(s, j2);
            if lit_at(s, c, ")"@) {
                Option::Some((ExprV::CallV(name, args), c + 1))
            } else {
                Option::None
            }
        },
        Option::None => Option::None,
    }
}

#[via_fn]
proof fn p_call_tail_dec(s: Seq<char>, i: int, name: Seq<char>, j: int) {
    reveal_strlit("(");
    if 0 <= i <= j <= s.len() {
        lemma_scan_bounds(s, j);
        let a = skip_sp(s, j);
        if lit_at(s, a, "("@) {
            lemma_scan_bounds(s, a + 1);
        }
    }
}

/// The sixth level: `%` and `^`, left associative, over primaries.
#[verifier::opaque]
pub open spec fn p_pow(s: Seq<char>, i: int) -> Option<(ExprV, int)>
    decreases s.len() - i, 39int, 0int,
    when 0 <= i <= s.len()
{
    match p_atom(s, i) {
        Option::Some((lhs, j)) => if i <= j <= s.len() {
            p_pow_more(s, j, lhs)
        } else {
            Option::None
        },
        Option::None => Option::None,
    }
}

/// The loop of the sixth level.
#[verifier::opaque]
pub open spec fn p_pow_more(s: Seq<char>, i: int, lhs: ExprV) -> Option<(ExprV, int)>
    decreases s.len() - i, 38int, 0int,
    when 0 <= i <= s.len()
    via p_pow_more_dec
{
    let a = skip_ws(s, i);
    if lit_at(s, a, "%"@) {
        let b = skip_ws(s, a + 1);
        match p_atom(s, b) {
            Option::Some((rhs, j)) => if j > i && j <= s.len() {
                p_pow_more(s, j, ExprV::ModuloV(Box::new(lhs), Box::new(rhs)))
            } else {
                Option::Some((lhs, i))
            },
            Option::None => Option::Some((lhs, i)),
        }
    } else if lit_at(s, a, "^"@) {
        let b = skip_ws(s, a + 1);
        match p_atom(s, b) {
            Option::Some((rhs, j)) => if j > i && j <= s.len() {
                p_pow_more(s, j, ExprV::ExponentV(Box::new(lhs), Box::new(rhs)))
            } else {
                Option::Some((lhs, i))
            },
            Option::None => Option::Some((lhs, i)),
        }
    } else {
        Option::Some((lhs, i))
    }
}

#[via_fn]
proof fn p_pow_more_dec(s: Seq<char>, i: int, lhs: ExprV) {
    reveal_strlit("%");
    reveal_strlit("^");
    if 0 <= i <= s.len() {
        lemma_scan_bounds(s, i);
        let a = skip_ws(s, i);
        if a + 1 <= s.len() {
            lemma_scan_bounds(s, a + 1);
        }
    }
}

/// The fifth level: `*` and `/`, left associative.
#[verifier::opaque]
pub open spec fn p_mul(s: Seq<char>, i: int) -> Option<(ExprV, int)>
    decreases s.len() - i, 41int, 0int,
    when 0 <= i <= s.len()
{
    match p_pow(s, i) {
        Option::Some((lhs, j)) => if i <= j <= s.len() {
            p_mul_more(s, j, lhs)
        } else {
            Option::None
        },
        Option::None => Option::None,
    }
}

/// The loop of that level.
#[verifier::opaque]
pub open spec fn p_mul_more(s: Seq<char>, i: int, lhs: ExprV) -> Option<(ExprV, int)>
    decreases s.len() - i, 40int, 0int,
    when 0 <= i <= s.len()
    via p_mul_more_dec
{
    let a = skip_ws(s, i);
    if lit_at(s, a, "*"@) {
        let b = skip_ws(s, a + 1int);
        match p_pow(s, b) {
            Option::Some((rhs, j)) => if j > i && j <= s.len() {
                p_mul_more(s, j, ExprV::MultiplyV(Box::new(lhs), Box::new(rhs)))
            } else {
                Option::Some((lhs, i))
            },
            Option::None => Option::Some((lhs, i)),
        }
    } else if lit_at(s, a, "/"@) {
        let b = skip_ws(s, a + 1int);
        match p_pow(s, b) {
            Option::Some((rhs, j)) => if j > i && j <= s.len() {
                p_mul_more(s, j, ExprV::DivideV(Box::new(lhs), Box::new(rhs)))
            } else {
                Option::Some((lhs, i))
            },
            Option::None => Option::Some((lhs, i)),
        }
    } else {
        Option::Some((lhs, i))
    }
}

#[via_fn]
proof fn p_mul_more_dec(s: Seq<char>, i: int, lhs: ExprV) {
    reveal_strlit("*");
    reveal_strlit("/");
    if 0 <= i <= s.len() {
        lemma_scan_bounds(s, i);
        let a = skip_ws(s, i);
        if lit_at(s, a, "*"@) {
            lemma_scan_bounds(s, a + 1int);
        }
        if lit_at(s, a, "/"@) {
            lemma_scan_bounds(s, a + 1int);
        }
    }
}

/// The fourth level: `+` and `-`, left associative.
#[verifier::opaque]
pub open spec fn p_add(s: Seq<char>, i: int) -> Option<(ExprV, int)>
    decreases s.len() - i, 43int, 0int,
    when 0 <= i <= s.len()
{
    match p_mul(s, i) {
        Option::Some((lhs, j)) => if i <= j <= s.len() {
            p_add_more(s, j, lhs)
        } else {
            Option::None
        },
        Option::None => Option::None,
    }
}

/// The loop of that level.
#[verifier::opaque]
pub open spec fn p_add_more(s: Seq<char>, i: int, lhs: ExprV) -> Option<(ExprV, int)>
    decreases s.len() - i, 42int, 0int,
    when 0 <= i <= s.len()
    via p_add_more_dec
{
    let a = skip_ws(s, i);
    if lit_at(s, a, "+"@) {
        let b = skip_ws(s, a + 1int);
        match p_mul(s, b) {
            Option::Some((rhs, j)) => if j > i && j <= s.len() {
                p_add_more(s, j, ExprV::AddV(Box::new(lhs), Box::new(rhs)))
            } else {
                Option::Some((lhs, i))
            },
            Option::None => Option::Some((lhs, i)),
        }
    } else if lit_at(s, a, "-"@) {
        let b = skip_ws(s, a + 1int);
        match p_mul(s, b) {
            Option::Some((rhs, j)) => if j > i && j <= s.len() {
                p_add_more(s, j, ExprV::SubtractV(Box::new(lhs), Box::new(rhs)))
            } else {
                Option::Some((lhs, i))
            },
            Option::None => Option::Some((lhs, i)),
        }
    } else {
        Option::Some((lhs, i))
    }
}

#[via_fn]
proof fn p_add_more_dec(s: Seq<char>, i: int, lhs: ExprV) {
    reveal_strlit("+");
    reveal_strlit("-");
    if 0 <= i <= s.len() {
        lemma_scan_bounds(s, i);
        let a = skip_ws(s, i);
        if lit_at(s, a, "+"@) {
            lemma_scan_bounds(s, a + 1int);
        }
        if lit_at(s, a, "-"@) {
            lemma_scan_bounds(s, a + 1int);
        }
    }
}

/// One comparison operator attempt: the operator word under optional
/// whitespace, then the right operand.
#[verifier::opaque]
pub open spec fn p_cmp_try(s: Seq<char>, i: int, opw: Seq<char>) -> Option<(ExprV, int)>
    decreases s.len() - i, 44int, 0int,
    when 0 <= i <= s.len()
    via p_cmp_try_dec
{
    let a = skip_ws(s, i);
    if lit_at(s, a, opw) {
        let b = skip_ws(s, a + opw.len());
        p_add(s, b)
    } else {
        Option::None
    }
}

#[via_fn]
proof fn p_cmp_try_dec(s: Seq<char>, i: int, opw: Seq<char>) {
    if 0 <= i <= s.len() {
        lemma_scan_bounds(s, i);
        let a = skip_ws(s, i);
        if lit_at(s, a, opw) {
            lemma_scan_bounds(s, a + opw.len());
        }
    }
}

/// The loop of the third level: the comparison operators, tried in the
/// grammar's order, each attempt falling through to the next on failure.
#[verifier::opaque]
pub open spec fn p_cmp_more(s: Seq<char>, i: int, lhs: ExprV) -> Option<(ExprV, int)>
    decreases s.len() - i, 45int, 0int,
    when 0 <= i <= s.len()
{
    match p_cmp_try(s, i, "="@) {
        Option::Some((rhs, j)) => if j > i && j <= s.len() {
            p_cmp_more(s, j, ExprV::EqV(Box::new(lhs), Box::new(rhs)))
        } else {
            Option::Some((lhs, i))
        },
        Option::None => match p_cmp_try(s, i, "<>"@) {
            Option::Some((rhs, j)) => if j > i && j <= s.len() {
                p_cmp_more(s, j, ExprV::NeV(Box::new(lhs), Box::new(rhs)))
            } else {
                Option::Some((lhs, i))
            },
            Option::None => match p_cmp_try(s, i, "<"@) {
                Option::Some((rhs, j)) => if j > i && j <= s.len() {
                    p_cmp_more(s, j, ExprV::LtV(Box::new(lhs), Box::new(rhs)))
                } else {
                    Option::Some((lhs, i))
                },
                Option::None => match p_cmp_try(s, i, "<="@) {
                    Option::Some((rhs, j)) => if j > i && j <= s.len() {
                        p_cmp_more(s, j, ExprV::LeV(Box::new(lhs), Box::new(rhs)))
                    } else {
                        Option::Some((lhs, i))
                    },
                    Option::None => match p_cmp_try(s, i, ">"@) {
                        Option::Some((rhs, j)) => if j > i && j <= s.len() {
                            p_cmp_more(s, j, ExprV::GtV(Box::new(lhs), Box::new(rhs)))
                        } else {
                            Option::Some((lhs, i))
                        },
                        Option::None => match p_cmp_try(s, i, ">="@) {
                            Option::Some((rhs, j)) => if j > i && j <= s.len() {
                                p_cmp_more(s, j, ExprV::GeV(Box::new(lhs), Box::new(rhs)))
                            } else {
                                Option::Some((lhs, i))
                            },
                            Option::None => match p_cmp_try(s, i, "in"@) {
                                Option::Some((rhs, j)) => if j > i && j <= s.len() {
                                    p_cmp_more(
                                        s,
                                        j,
                                        ExprV::InV(Box::new(lhs), Box::new(rhs), false),
                                    )
                                } else {
                                    Option::Some((lhs, i))
                                },
                                Option::None => match p_cmp_try(s, i, "exactin"@) {
                                    Option::Some((rhs, j)) => if j > i && j <= s.len() {
                                        p_cmp_more(
                                            s,
                                            j,
                                            ExprV::InV(Box::new(lhs), Box::new(rhs), true),
                                        )
                                    } else {
                                        Option::Some((lhs, i))
                                    },
                                    Option::None => Option::Some((lhs, i)),
                                },
                            },
                        },
                    },
                },
            },
        },
    }
}

/// The third level: the comparisons and containment tests.
#[verifier::opaque]
pub open spec fn p_cmp(s: Seq<char>, i: int) -> Option<(ExprV, int)>
    decreases s.len() - i, 46int, 0int,
    when 0 <= i <= s.len()
{
    match p_add(s, i) {
        Option::Some((lhs, j)) => if i <= j <= s.len() {
            p_cmp_more(s, j, lhs)
        } else {
            Option::None
        },
        Option::None => Option::None,
    }
}

/// The second level: the prefix negations `Not` (spaces required) and
/// `!`; a failed prefix falls through to the comparisons.
#[verifier::opaque]
pub open spec fn p_not(s: Seq<char>, i: int) -> Option<(ExprV, int)>
    decreases s.len() - i, 47int, 0int,
    when 0 <= i <= s.len()
    via p_not_dec
{
    if lit_at(s, i, "Not"@) && skip_sp(s, i + 3) > i + 3 {
        let a = skip_sp(s, i + 3);
        match p_not(s, a) {
            Option::Some((c, j)) => Option::Some((ExprV::NotV(Box::new(c)), j)),
            Option::None => p_not_bang(s, i),
        }
    } else {
        p_not_bang(s, i)
    }
}

#[via_fn]
proof fn p_not_dec(s: Seq<char>, i: int) {
    reveal_strlit("Not");
    if 0 <= i <= s.len() {
        if lit_at(s, i, "Not"@) {
            lemma_scan_bounds(s, i + 3);
        }
    }
}

/// The `!` prefix of the second level, then the fall-through to the
/// comparisons.
#[verifier::opaque]
pub open spec fn p_not_bang(s: Seq<char>, i: int) -> Option<(ExprV, int)>
    decreases s.len() - i, 46int, 1int,
    when 0 <= i <= s.len()
    via p_not_bang_dec
{
    if lit_at(s, i, "!"@) {
        let a = skip_sp(s, i + 1);
        match p_not(s, a) {
            Option::Some((c, j)) => Option::Some((ExprV::NotV(Box::new(c)), j)),
            Option::None => p_cmp(s, i),
        }
    } else {
        p_cmp(s, i)
    }
}

#[via_fn]
proof fn p_not_bang_dec(s: Seq<char>, i: int) {
    reveal_strlit("!");
    if 0 <= i <= s.len() {
        if lit_at(s, i, "!"@) {
            lemma_scan_bounds(s, i + 1);
        }
    }
}

/// The loop of the first level: `And` and `Or` as keywords (whitespace
/// required on both sides), `&&` and `||` as symbols.
#[verifier::opaque]
pub open spec fn p_expr_more(s: Seq<char>, i: int, lhs: ExprV) -> Option<(ExprV, int)>
    decreases s.len() - i, 49int, 0int,
    when 0 <= i <= s.len()
    via p_expr_more_dec
{
    let a = skip_ws(s, i);
    if a > i && lit_at(s, a, "And"@) && skip_ws(s, a + 3) > a + 3 {
        let b = skip_ws(s, a + 3);
        match p_not(s, b) {
            Option::Some((rhs, j)) => if j > i && j <= s.len() {
                p_expr_more(s, j, ExprV::AndV(Box::new(lhs), Box::new(rhs)))
            } else {
                Option::Some((lhs, i))
            },
            Option::None => Option::Some((lhs, i)),
        }
    } else if a > i && lit_at(s, a, "Or"@) && skip_ws(s, a + 2) > a + 2 {
        let b = skip_ws(s, a + 2);
        match p_not(s, b) {
            Option::Some((rhs, j)) => if j > i && j <= s.len() {
                p_expr_more(s, j, ExprV::OrV(Box::new(lhs), Box::new(rhs)))
            } else {
                Option::Some((lhs, i))
            },
            Option::None => Option::Some((lhs, i)),
        }
    } else if lit_at(s, a, "&&"@) {
        let b = skip_ws(s, a + 2);
        match p_not(s, b) {
            Option::Some((rhs, j)) => if j > i && j <= s.len() {
                p_expr_more(s, j, ExprV::AndV(Box::new(lhs), Box::new(rhs)))
            } else {
                Option::Some((lhs, i))
            },
            Option::None => Option::Some((lhs, i)),
        }
    } else if lit_at(s, a, "||"@) {
        let b = skip_ws(s, a + 2);
        match p_not(s, b) {
            Option::Some((rhs, j)) => if j > i && j <= s.len() {
                p_expr_more(s, j, ExprV::OrV(Box::new(lhs), Box::new(rhs)))
            } else {
                Option::Some((lhs, i))
            },
            Option::None => Option::Some((lhs, i)),
        }
    } else {
        Option::Some((lhs, i))
    }
}

#[via_fn]
proof fn p_expr_more_dec(s: Seq<char>, i: int, lhs: ExprV) {
    reveal_strlit("And");
    reveal_strlit("Or");
    reveal_strlit("&&");
    reveal_strlit("||");
    if 0 <= i <= s.len() {
        lemma_scan_bounds(s, i);
        let a = skip_ws(s, i);
        if lit_at(s, a, "And"@) {
            lemma_scan_bounds(s, a + 3);
        }
        if lit_at(s, a, "Or"@) {
            lemma_scan_bounds(s, a + 2);
        }
        if lit_at(s, a, "&&"@) {
            lemma_scan_bounds(s, a + 2);
        }
        if lit_at(s, a, "||"@) {
            lemma_scan_bounds(s, a + 2);
        }
    }
}

/// An expression: the full precedence tower.
#[verifier::opaque]
pub open spec fn p_expr(s: Seq<char>, i: int) -> Option<(ExprV, int)>
    decreases s.len() - i, 50int, 0int,
    when 0 <= i <= s.len()
{
    match p_not(s, i) {
        Option::Some((lhs, j)) => if i <= j <= s.len() {
            p_expr_more(s, j, lhs)
        } else {
            Option::None
        },
        Option::None => Option::None,
    }
}

/// A top-level expression, optionally wrapped in a projection alias
/// (`expr AS name`).
#[verifier::opaque]
pub open spec fn p_proj(s: Seq<char>, i: int) -> Option<(ExprV, int)>
    decreases s.len() - i, 51int, 0int,
    when 0 <= i <= s.len()
{
    match p_expr(s, i) {
        Option::Some((e, j)) => if i <= j <= s.len() {
            let a = skip_sp(s, j);
            if lit_at(s, a, "AS"@) || lit_at(s, a, "as"@) {
                let b = skip_sp(s, a + 2);
                match p_ident(s, b) {
                    Option::Some((name, j2)) => Option::Some((
                        ExprV::AliasV(Box::new(e), name),
                        j2,
                    )),
                    Option::None => Option::Some((e, j)),
                }
            } else {
                Option::Some((e, j))
            }
        } else {
            Option::None
        },
        Option::None => Option::None,
    }
}

/// The later expressions of a program, from the semicolon separator on.
#[verifier::opaque]
pub open spec fn p_list_more(s: Seq<char>, i: int, acc: Seq<ExprV>) -> (Seq<ExprV>, int)
    decreases s.len() - i, 52int, 0int,
    when 0 <= i <= s.len()
    via p_list_more_dec
{
    let a = skip_ws(s, i);
    if lit_at(s, a, ";"@) {
        let b = skip_ws(s, a + 1);
        match p_proj(s, b) {
            Option::Some((e, j)) => if j > i && j <= s.len() {
                p_list_more(s, j, acc.push(e))
            } else {
                (acc, i)
            },
            Option::None => (acc, i),
        }
    } else {
        (acc, i)
    }
}

#[via_fn]
proof fn p_list_more_dec(s: Seq<char>, i: int, acc: Seq<ExprV>) {
    reveal_strlit(";");
    if 0 <= i <= s.len() {
        lemma_scan_bounds(s, i);
        let a = skip_ws(s, i);
        if lit_at(s, a, ";"@) {
            lemma_scan_bounds(s, a + 1);
        }
    }
}

/// A whole program with no trailing semicolon: one or more expressions
/// separated by semicolons, then only whitespace to the end.
#[verifier::opaque]
pub open spec fn p_program_full(s: Seq<char>) -> Option<Seq<ExprV>> {
    match p_proj(s, 0) {
        Option::Some((e1, j)) => if 0 <= j <= s.len() {
            let (acc, j2) = p_list_more(s, j, seq![e1]);
            if 0 <= j2 <= s.len() && skip_ws(s, j2) == s.len() {
                Option::Some(acc)
            } else {
                Option::None
            }
        } else {
            Option::None
        },
        Option::None => Option::None,
    }
}

/// What a program parses to: its expressions in order, a single optional
/// trailing semicolon allowed.
#[verifier::opaque]
pub open spec fn spec_parse(s: Seq<char>) -> Option<Seq<ExprV>> {
    if s.len() > 0 && s.last() == ';' && p_program_full(s.drop_last()) is Some {
        p_program_full(s.drop_last())
    } else {
        p_program_full(s)
    }
}


/// All characters a digit scan passed over are digits.
pub proof fn lemma_scan_digits_chars(s: Seq<char>, i: int)
    requires
        0 <= i <= s.len(),
    ensures
        forall|q: int| i <= q < scan_digits(s, i) ==> is_digit(#[trigger] s[q]),
    decreases s.len() - i,
{
    if i < s.len() && is_digit(s[i]) {
        lemma_scan_digits_chars(s, i + 1);
    }
}

/// A digit-run value is never negative.
pub proof fn lemma_dec_value_nonneg(s: Seq<char>, from: int, to: int)
    requires
        from <= to,
        forall|q: int| from <= q < to ==> is_digit(#[trigger] s[q]),
    ensures
        dec_value(s, from, to) >= 0,
    decreases to - from,
{
    if to > from {
        lemma_dec_value_nonneg(s, from, to - 1);
    }
}

/// A digit-run value only grows as the run extends.
pub proof fn lemma_dec_value_mono(s: Seq<char>, from: int, m: int, to: int)
    requires
        from <= m <= to,
        forall|q: int| from <= q < to ==> is_digit(#[trigger] s[q]),
    ensures
        dec_value(s, from, to) >= dec_value(s, from, m),
    decreases to - m,
{
    if m < to {
        lemma_dec_value_mono(s, from, m, to - 1);
        lemma_dec_value_nonneg(s, from, to - 1);
    }
}

/// Whether a character is broad whitespace, executably.
fn e_is_ws(c: char) -> (r: bool)
    ensures
        r == is_ws(c),
{
    c == ' ' || c == '\n' || c == '\t'
}

/// Whether a character is a digit, executably.
fn e_is_digit(c: char) -> (r: bool)
    ensures
        r == is_digit(c),
{
    let u = c as u32;
    48 <= u && u <= 57
}

/// Whether a character starts an identifier, executably.
fn e_is_alpha(c: char) -> (r: bool)
    ensures
        r == is_alpha(c),
{
    let u = c as u32;
    (97 <= u && u <= 122) || (65 <= u && u <= 90)
}

/// Whether a character continues an identifier, executably.
fn e_is_alnum(c: char) -> (r: bool)
    ensures
        r == is_alnum(c),
{
    e_is_alpha(c) || e_is_digit(c) || c == '_'
}

/// Skips broad whitespace, executably.
#[verifier::loop_isolation(false)]
fn e_skip_ws(s: &str, i: usize) -> (r: usize)
    requires
        i <= s@.len(),
    ensures
        r == skip_ws(s@, i as int),
        i <= r <= s@.len(),
        s@.len() <= usize::MAX,
{
    let n = s.unicode_len();
    let mut j = i;
    while j < n && e_is_ws(s.get_char(j))
        invariant
            i <= j <= n,
            skip_ws(s@, i as int) == skip_ws(s@, j as int),
        decreases n - j,
    {
        j = j + 1;
    }
    j
}

/// Skips spaces, executably.
#[verifier::loop_isolation(false)]
fn e_skip_sp(s: &str, i: usize) -> (r: usize)
    requires
        i <= s@.len(),
    ensures
        r == skip_sp(s@, i as int),
        i <= r <= s@.len(),
        s@.len() <= usize::MAX,
{
    let n = s.unicode_len();
    let mut j = i;
    while j < n && s.get_char(j) == ' '
        invariant
            i <= j <= n,
            skip_sp(s@, i as int) == skip_sp(s@, j as int),
        decreases n - j,
    {
        j = j + 1;
    }
    j
}

/// Scans a digit run, executably.
#[verifier::loop_isolation(false)]
fn e_scan_digits(s: &str, i: usize) -> (r: usize)
    requires
        i <= s@.len(),
    ensures
        r == scan_digits(s@, i as int),
        i <= r <= s@.len(),
        s@.len() <= usize::MAX,
{
    let n = s.unicode_len();
    let mut j = i;
    while j < n && e_is_digit(s.get_char(j))
        invariant
            i <= j <= n,
            scan_digits(s@, i as int) == scan_digits(s@, j as int),
        decreases n - j,
    {
        j = j + 1;
    }
    j
}

/// Scans an identifier tail, executably.
#[verifier::loop_isolation(false)]
fn e_scan_alnum(s: &str, i: usize) -> (r: usize)
    requires
        i <= s@.len(),
    ensures
        r == scan_alnum(s@, i as int),
        i <= r <= s@.len(),
        s@.len() <= usize::MAX,
{
    let n = s.unicode_len();
    let mut j = i;
    while j < n && e_is_alnum(s.get_char(j))
        invariant
            i <= j <= n,
            scan_alnum(s@, i as int) == scan_alnum(s@, j as int),
        decreases n - j,
    {
        j = j + 1;
    }
    j
}

/// Scans to the closing quote of a text literal, executably.
#[verifier::loop_isolation(false)]
fn e_scan_text(s: &str, i: usize) -> (r: Option<usize>)
    requires
        i <= s@.len(),
    ensures
        match (r, scan_text(s@, i as int)) {
            (Option::Some(j), Option::Some(jv)) => j == jv && i <= j < s@.len(),
            (Option::None, Option::None) => true,
            _ => false,
        },
{
    let n = s.unicode_len();
    let mut j = i;
    while j < n && s.get_char(j) != '\'' && s.get_char(j) != '\n' && s.get_char(j) != '\r'
        invariant
            i <= j <= n,
            scan_text(s@, i as int) == scan_text(s@, j as int),
        decreases n - j,
    {
        j = j + 1;
    }
    if j < n && s.get_char(j) == '\'' {
        Some(j)
    } else {
        None
    }
}

/// Whether a word stands at a place of the text, executably.
#[verifier::loop_isolation(false)]
fn e_lit_at(s: &str, i: usize, w: &str) -> (r: bool)
    requires
        i <= s@.len(),
    ensures
        r == lit_at(s@, i as int, w@),
        s@.len() <= usize::MAX,
{
    let n = s.unicode_len();
    let m = w.unicode_len();
    if m > n - i {
        return false;
    }
    let mut j: usize = 0;
    while j < m
        invariant
            0 <= j <= m,
            i + m <= n,
            forall|q: int| 0 <= q < j ==> s@[i + q] == w@[q],
        decreases m - j,
    {
        let sc = s.get_char(i + j);
        let wc = w.get_char(j);
        if sc != wc {
            proof {
                assert(s@.subrange(i as int, i + w@.len() as int)[j as int] == s@[i + j]);
            }
            return false;
        }
        j = j + 1;
    }
    proof {
        assert(s@.subrange(i as int, i + w@.len() as int) =~= w@);
    }
    true
}

/// Parses an identifier, executably.
fn e_ident(s: &str, i: usize) -> (r: Option<(String, usize)>)
    requires
        i <= s@.len(),
    ensures
        match (r, p_ident(s@, i as int)) {
            (Option::Some((t, j)), Option::Some((tv, jv))) => t@ == tv && j == jv && i <= j
                <= s@.len(),
            (Option::None, Option::None) => true,
            _ => false,
        },
{
    let n = s.unicode_len();
    if i < n && e_is_alpha(s.get_char(i)) {
        let end = e_scan_alnum(s, i + 1);
        let t = s.substring_char(i, end).to_owned();
        Some((t, end))
    } else {
        None
    }
}


/// Parses a literal, executably.
#[verifier::rlimit(100)]
#[verifier::loop_isolation(false)]
#[verifier::spinoff_prover]
fn e_literal(s: &str, i: usize) -> (r: Option<(Literal, usize)>)
    requires
        i <= s@.len(),
    ensures
        match (r, p_literal(s@, i as int)) {
            (Option::Some((l, j)), Option::Some((lv, jv))) => lv_view(l) == lv && j == jv && i <= j
                <= s@.len(),
            (Option::None, Option::None) => true,
            _ => false,
        },
    decreases s@.len() - i, 35int, 0int,
{
    proof {
        reveal(p_literal);
    }
    proof {
        reveal_strlit("-");
        reveal_strlit(".");
        reveal_strlit("true");
        reveal_strlit("false");
        reveal_strlit("'");
        reveal_strlit("{");
    }
    let n = s.unicode_len();
    let neg = e_lit_at(s, i, "-");
    let start = if neg {
        i + 1
    } else {
        i
    };
    let d0 = e_scan_digits(s, start);
    let dot = e_lit_at(s, d0, ".");
    let d1 = if dot {
        e_scan_digits(s, d0 + 1)
    } else {
        d0
    };
    proof {
        lemma_scan_digits_chars(s@, start as int);
        if dot {
            lemma_scan_digits_chars(s@, d0 + 1);
        }
    }
    if d0 > start && dot && d1 > d0 + 1 {
        let sub = s.substring_char(i, d1);
        match crate::numeric::num_from_text(sub) {
            Some(bits) => Some((Literal::Number(bits), d1)),
            None => None,
        }
    } else {
        let mut fits = false;
        let mut value: i128 = 0;
        if d0 > start {
            let mut acc: i128 = 0;
            let mut q = start;
            let mut over = false;
            while q < d0 && !over
                invariant
                    start <= q <= d0,
                    d0 == scan_digits(s@, start as int),
                    start as int == if neg {
                        i + 1
                    } else {
                        i as int
                    },
                    i <= s@.len(),
                    d0 <= s@.len(),
                    !over ==> acc == dec_value(s@, start as int, q as int) && 0 <= acc
                        <= 0x8000_0000_0000_0000,
                    over ==> dec_value(s@, start as int, q as int) > 0x8000_0000_0000_0000,
                decreases d0 - q,
            {
                let c = s.get_char(q);
                proof {
                    assert(is_digit(s@[q as int]));
                }
                let d = (c as u32) - 48;
                if !over {
                    let next: i128 = acc * 10 + (d as i128);
                    if next > 0x8000_0000_0000_0000i128 {
                        over = true;
                        proof {
                            assert(dec_value(s@, start as int, q + 1) == acc * 10 + (
                            s@[q as int] as int - '0' as int));
                        }
                    } else {
                        acc = next;
                    }
                }
                proof {
                    if over {
                        lemma_dec_value_mono(s@, start as int, q as int, q + 1);
                        lemma_dec_value_mono(s@, start as int, q + 1, q + 1);
                    }
                }
                q = q + 1;
            }
            proof {
                if over {
                    lemma_dec_value_mono(s@, start as int, q as int, d0 as int);
                }
            }
            if !over {
                if neg {
                    fits = true;
                    value = -acc;
                } else if acc < 0x8000_0000_0000_0000i128 {
                    fits = true;
                    value = acc;
                }
            }
        }
        if d0 > start && fits {
            let bits = crate::numeric::num_from_i128(value);
            Some((Literal::Number(bits), d0))
        } else if e_lit_at(s, i, "true") {
            Some((Literal::Boolean(true), i + 4))
        } else if e_lit_at(s, i, "false") {
            Some((Literal::Boolean(false), i + 5))
        } else if e_lit_at(s, i, "'") {
            match e_scan_text(s, i + 1) {
                Some(qq) => {
                    let body = s.substring_char(i + 1, qq).to_owned();
                    Some((Literal::Text(body), qq + 1))
                },
                None => None,
            }
        } else if e_lit_at(s, i, "{") {
            e_record(s, i)
        } else {
            None
        }
    }
}

/// Parses a record literal, executably.
#[verifier::rlimit(100)]
#[verifier::spinoff_prover]
fn e_record(s: &str, i: usize) -> (r: Option<(Literal, usize)>)
    requires
        i <= s@.len(),
    ensures
        match (r, p_record(s@, i as int)) {
            (Option::Some((l, j)), Option::Some((lv, jv))) => lv_view(l) == lv && j == jv && i <= j
                <= s@.len(),
            (Option::None, Option::None) => true,
            _ => false,
        },
    decreases s@.len() - i, 34int, 0int,
{
    proof {
        reveal(p_record);
    }
    proof {
        reveal_strlit("{");
        reveal_strlit("}");
    }
    if e_lit_at(s, i, "{") {
        let b = e_skip_ws(s, i + 1);
        match e_field(s, b) {
            Some((k, v, j)) => {
                if j > i {
                    e_record_tail(s, i, k, v, j)
                } else {
                    None
                }
            },
            None => {
                let e = e_skip_ws(s, i + 1);
                if e_lit_at(s, e, "}") {
                    let fs: Vec<(String, Expression)> = Vec::new();
                    proof {
                        assert(crate::ast::efields_view(fs@) =~= Seq::<(Seq<char>, ExprV)>::empty());
                    }
                    Some((Literal::Record(Record { fields: fs }), e + 1))
                } else {
                    None
                }
            },
        }
    } else {
        None
    }
}

/// Parses the later fields and closing brace of a record literal,
/// executably.
#[verifier::rlimit(100)]
#[verifier::spinoff_prover]
fn e_record_tail(s: &str, i: usize, k: String, v: Expression, j: usize) -> (r: Option<
    (Literal, usize),
>)
    requires
        i < j <= s@.len(),
    ensures
        match (r, p_record_tail(s@, i as int, k@, ev_view(v), j as int)) {
            (Option::Some((l, j2)), Option::Some((lv, jv))) => lv_view(l) == lv && j2 == jv && i
                <= j2 <= s@.len(),
            (Option::None, Option::None) => true,
            _ => false,
        },
    decreases s@.len() - i, 33int, 1int,
{
    proof {
        reveal(p_record_tail);
    }
    proof {
        reveal_strlit("}");
    }
    let ghost kv = k@;
    let ghost vv = ev_view(v);
    let mut fs: Vec<(String, Expression)> = Vec::new();
    proof {
        assert(crate::ast::efields_view(fs@) =~= Seq::<(Seq<char>, ExprV)>::empty());
    }
    crate::ast::insert_field(&mut fs, k, v);
    proof {
        assert(crate::ast::efields_view(fs@) == field_insert(Seq::empty(), kv, vv));
    }
    let j2 = e_fields_more(s, j, &mut fs);
    let e = e_skip_ws(s, j2);
    if e_lit_at(s, e, "}") {
        Some((Literal::Record(Record { fields: fs }), e + 1))
    } else {
        None
    }
}

/// Parses one record field, executably.
#[verifier::spinoff_prover]
fn e_field(s: &str, i: usize) -> (r: Option<(String, Expression, usize)>)
    requires
        i <= s@.len(),
    ensures
        match (r, p_field(s@, i as int)) {
            (Option::Some((k, v, j)), Option::Some((kv, vv, jv))) => k@ == kv && ev_view(v) == vv
                && j == jv && i <= j <= s@.len(),
            (Option::None, Option::None) => true,
            _ => false,
        },
    decreases s@.len() - i, 33int, 0int,
{
    proof {
        reveal(p_field);
    }
    proof {
        reveal_strlit(":");
    }
    match e_ident(s, i) {
        Some((k, j1)) => {
            let a = e_skip_sp(s, j1);
            if e_lit_at(s, a, ":") {
                let b = e_skip_sp(s, a + 1);
                match e_expr(s, b) {
                    Some((v, j)) => Some((k, v, j)),
                    None => None,
                }
            } else {
                None
            }
        },
        None => None,
    }
}

/// Parses the later record fields, executably, inserting each into the
/// sorted field vector.
#[verifier::spinoff_prover]
fn e_fields_more(s: &str, i: usize, fs: &mut Vec<(String, Expression)>) -> (r: usize)
    requires
        i <= s@.len(),
    ensures
        ({
            let (accv, jv) = p_fields_more(
                s@,
                i as int,
                crate::ast::efields_view(old(fs)@),
            )->Some_0;
            &&& p_fields_more(s@, i as int, crate::ast::efields_view(old(fs)@)) is Some
            &&& crate::ast::efields_view(final(fs)@) == accv
            &&& r as int == jv
            &&& i <= r <= s@.len()
        }),
    decreases s@.len() - i, 32int, 0int,
{
    proof {
        reveal(p_fields_more);
    }
    proof {
        reveal_strlit(",");
    }
    let a = e_skip_sp(s, i);
    if e_lit_at(s, a, ",") {
        let b = e_skip_sp(s, a + 1);
        match e_field(s, b) {
            Some((k, v, j)) => {
                if j > i {
                    crate::ast::insert_field(fs, k, v);
                    e_fields_more(s, j, fs)
                } else {
                    i
                }
            },
            None => i,
        }
    } else {
        i
    }
}

/// Parses the later call arguments, executably.
#[verifier::spinoff_prover]
fn e_args_more(s: &str, i: usize, args: &mut Vec<Expression>) -> (r: usize)
    requires
        i <= s@.len(),
    ensures
        ({
            let (accv, jv) = p_args_more(s@, i as int, crate::ast::eargs_view(old(args)@))->Some_0;
            &&& p_args_more(s@, i as int, crate::ast::eargs_view(old(args)@)) is Some
            &&& crate::ast::eargs_view(final(args)@) == accv
            &&& r as int == jv
            &&& i <= r <= s@.len()
        }),
    decreases s@.len() - i, 31int, 0int,
{
    proof {
        reveal(p_args_more);
    }
    proof {
        reveal_strlit(",");
    }
    let a = e_skip_sp(s, i);
    if e_lit_at(s, a, ",") {
        let b = e_skip_sp(s, a + 1);
        match e_expr(s, b) {
            Some((e, j)) => {
                if j > i {
                    let ghost oldargs = args@;
                    args.push(e);
                    proof {
                        assert(args@.drop_last() =~= oldargs);
                    }
                    e_args_more(s, j, args)
                } else {
                    i
                }
            },
            None => i,
        }
    } else {
        i
    }
}

/// Parses a property form, executably.
fn e_property(s: &str, i: usize) -> (r: Option<(Expression, usize)>)
    requires
        i <= s@.len(),
    ensures
        match (r, p_property(s@, i as int)) {
            (Option::Some((e, j)), Option::Some((ev, jv))) => ev_view(e) == ev && j == jv && i <= j
                <= s@.len(),
            (Option::None, Option::None) => true,
            _ => false,
        },
{
    proof {
        reveal(p_property);
    }
    proof {
        reveal_strlit("Parent.");
        reveal_strlit("Self.");
        reveal_strlit("ThisItem.");
        reveal_strlit("ThisRecord.");
    }
    if e_lit_at(s, i, "Parent.") {
        match e_ident(s, i + 7) {
            Some((k, j)) => Some(
                (
                    Expression::UnaryExpression(
                        UnaryExpression::Property { context: Context::Parent, key: k },
                    ),
                    j,
                ),
            ),
            None => None,
        }
    } else if e_lit_at(s, i, "Self.") {
        match e_ident(s, i + 5) {
            Some((k, j)) => Some(
                (
                    Expression::UnaryExpression(
                        UnaryExpression::Property { context: Context::Self_, key: k },
                    ),
                    j,
                ),
            ),
            None => None,
        }
    } else if e_lit_at(s, i, "ThisItem.") {
        match e_ident(s, i + 9) {
            Some((k, j)) => Some(
                (
                    Expression::UnaryExpression(
                        UnaryExpression::Property { context: Context::ThisItem, key: k },
                    ),
                    j,
                ),
            ),
            None => None,
        }
    } else if e_lit_at(s, i, "ThisRecord.") {
        match e_ident(s, i + 11) {
            Some((k, j)) => Some(
                (
                    Expression::UnaryExpression(
                        UnaryExpression::Property { context: Context::ThisRecord, key: k },
                    ),
                    j,
                ),
            ),
            None => None,
        }
    } else {
        None
    }
}

/// Parses a function call, executably.
#[verifier::spinoff_prover]
#[verifier::rlimit(100)]
fn e_call(s: &str, i: usize) -> (r: Option<(Expression, usize)>)
    requires
        i <= s@.len(),
    ensures
        match (r, p_call(s@, i as int)) {
            (Option::Some((e, j)), Option::Some((ev, jv))) => ev_view(e) == ev && j == jv && i <= j
                <= s@.len(),
            (Option::None, Option::None) => true,
            _ => false,
        },
    decreases s@.len() - i, 36int, 0int,
{
    proof {
        reveal(p_call);
    }
    match e_ident(s, i) {
        Some((name, j)) => e_call_tail(s, i, name, j),
        None => None,
    }
}

/// Parses the parenthesized argument list of a call, executably.
#[verifier::spinoff_prover]
#[verifier::rlimit(100)]
fn e_call_tail(s: &str, i: usize, name: String, j: usize) -> (r: Option<(Expression, usize)>)
    requires
        i <= j <= s@.len(),
    ensures
        match (r, p_call_tail(s@, i as int, name@, j as int)) {
            (Option::Some((e, j2)), Option::Some((ev, jv))) => ev_view(e) == ev && j2 == jv && i
                <= j2 <= s@.len(),
            (Option::None, Option::None) => true,
            _ => false,
        },
    decreases s@.len() - i, 35int, 1int,
{
    proof {
        reveal(p_call_tail);
    }
    proof {
        reveal_strlit("(");
        reveal_strlit(")");
    }
    let a = e_skip_sp(s, j);
    if e_lit_at(s, a, "(") {
        let b = e_skip_ws(s, a + 1);
        match e_expr(s, b) {
            Some((e1, j1)) => {
                if j1 > i {
                    e_call_args(s, i, name, e1, j1)
                } else {
                    None
                }
            },
            None => {
                let c = e_skip_ws(s, b);
                if e_lit_at(s, c, ")") {
                    let args: Vec<Expression> = Vec::new();
                    proof {
                        assert(crate::ast::eargs_view(args@) =~= Seq::<ExprV>::empty());
                    }
                    Some(
                        (
                            Expression::FunctionExpression(FunctionExpression { name, args }),
                            c + 1,
                        ),
                    )
                } else {
                    None
                }
            },
        }
    } else {
        None
    }
}

/// Parses the later arguments and closing parenthesis of a call,
/// executably.
#[verifier::spinoff_prover]
#[verifier::rlimit(100)]
fn e_call_args(s: &str, i: usize, name: String, e1: Expression, j1: usize) -> (r: Option<
    (Expression, usize),
>)
    requires
        i < j1 <= s@.len(),
    ensures
        match (r, p_call_args(s@, i as int, name@, ev_view(e1), j1 as int)) {
            (Option::Some((e, j2)), Option::Some((ev, jv))) => ev_view(e) == ev && j2 == jv && i
                <= j2 <= s@.len(),
            (Option::None, Option::None) => true,
            _ => false,
        },
    decreases s@.len() - i, 35int, 0int,
{
    proof {
        reveal(p_call_args);
    }
    proof {
        reveal_strlit(")");
    }
    let mut args: Vec<Expression> = Vec::new();
    let ghost e1v = ev_view(e1);
    args.push(e1);
    proof {
        assert(args@.drop_last() =~= Seq::<Expression>::empty());
        assert(args@.drop_last().len() == 0);
        assert(crate::ast::eargs_view(args@) == crate::ast::eargs_view(args@.drop_last()).push(
            ev_view(args@.last()),
        ));
        assert(crate::ast::eargs_view(args@) =~= seq![e1v]);
    }
    let j2 = e_args_more(s, j1, &mut args);
    proof {
        assert(p_args_more(s@, j1 as int, seq![e1v]) == Option::Some(
            (crate::ast::eargs_view(args@), j2 as int),
        ));
    }
    let c = e_skip_ws(s, j2);
    if e_lit_at(s, c, ")") {
        let r2 = Some(
            (Expression::FunctionExpression(FunctionExpression { name, args }), c + 1),
        );
        proof {
            assert(p_call_args(s@, i as int, name@, e1v, j1 as int) is Some);
        }
        r2
    } else {
        None
    }
}

/// Parses a primary form, executably.
#[verifier::rlimit(50)]
#[verifier::spinoff_prover]
fn e_atom(s: &str, i: usize) -> (r: Option<(Expression, usize)>)
    requires
        i <= s@.len(),
    ensures
        match (r, p_atom(s@, i as int)) {
            (Option::Some((e, j)), Option::Some((ev, jv))) => ev_view(e) == ev && j == jv && i <= j
                <= s@.len(),
            (Option::None, Option::None) => true,
            _ => false,
        },
    decreases s@.len() - i, 37int, 0int,
{
    proof {
        reveal(p_atom);
    }
    proof {
        reveal_strlit("(");
        reveal_strlit(")");
    }
    match e_literal(s, i) {
        Some((l, j)) => Some((Expression::UnaryExpression(UnaryExpression::Literal(l)), j)),
        None => match e_property(s, i) {
            Some((e, j)) => Some((e, j)),
            None => match e_call(s, i) {
                Some((e, j)) => Some((e, j)),
                None => match e_ident(s, i) {
                    Some((name, j)) => Some(
                        (Expression::UnaryExpression(UnaryExpression::Identifier(name)), j),
                    ),
                    None => {
                        if e_lit_at(s, i, "(") {
                            let b = e_skip_ws(s, i + 1);
                            match e_expr(s, b) {
                                Some((e, j)) => {
                                    let c = e_skip_ws(s, j);
                                    if e_lit_at(s, c, ")") {
                                        Some((e, c + 1))
                                    } else {
                                        None
                                    }
                                },
                                None => None,
                            }
                        } else {
                            None
                        }
                    },
                },
            },
        },
    }
}

/// That level's entry, executably.
#[verifier::spinoff_prover]
#[verifier::rlimit(100)]
fn e_pow(s: &str, i: usize) -> (r: Option<(Expression, usize)>)
    requires
        i <= s@.len(),
    ensures
        match (r, p_pow(s@, i as int)) {
            (Option::Some((e, j)), Option::Some((ev, jv))) => ev_view(e) == ev && j == jv && i <= j
                <= s@.len(),
            (Option::None, Option::None) => true,
            _ => false,
        },
    decreases s@.len() - i, 39int, 0int,
{
    proof {
        reveal(p_pow);
    }
    match e_atom(s, i) {
        Some((lhs, j)) => {
            proof {
                assert(p_atom(s@, i as int) is Some);
                assert(p_atom(s@, i as int)->Some_0.0 == ev_view(lhs));
                assert(p_atom(s@, i as int)->Some_0.1 == j as int);
                assert(p_pow(s@, i as int) == p_pow_more(s@, j as int, ev_view(lhs)));
            }
            Some(e_pow_more(s, j, lhs))
        },
        None => None,
    }
}

/// That level's left-associative loop, executably.
#[verifier::rlimit(50)]
#[verifier::spinoff_prover]
fn e_pow_more(s: &str, i: usize, lhs: Expression) -> (r: (Expression, usize))
    requires
        i <= s@.len(),
    ensures
        p_pow_more(s@, i as int, ev_view(lhs)) == Option::Some(
            (ev_view(r.0), r.1 as int),
        ),
        i <= r.1 <= s@.len(),
    decreases s@.len() - i, 38int, 0int,
{
    proof {
        reveal(p_pow_more);
    }
    proof {
        reveal_strlit("%");
        reveal_strlit("^");
    }
    let a = e_skip_ws(s, i);
    if e_lit_at(s, a, "%") {
        let b = e_skip_ws(s, a + 1);
        match e_atom(s, b) {
            Some((rhs, j)) => {
                if j > i {
                    return e_pow_more(
                        s,
                        j,
                        Expression::BinaryExpression(
                            BinaryExpression::Modulo(Box::new(lhs), Box::new(rhs)),
                        ),
                    );
                }
                (lhs, i)
            },
            None => (lhs, i),
        }
    } else if e_lit_at(s, a, "^") {
        let b = e_skip_ws(s, a + 1);
        match e_atom(s, b) {
            Some((rhs, j)) => {
                if j > i {
                    return e_pow_more(
                        s,
                        j,
                        Expression::BinaryExpression(
                            BinaryExpression::Exponent(Box::new(lhs), Box::new(rhs)),
                        ),
                    );
                }
                (lhs, i)
            },
            None => (lhs, i),
        }
    } else {
        (lhs, i)
    }
}

/// That level's entry, executably.
#[verifier::spinoff_prover]
#[verifier::rlimit(100)]
fn e_mul(s: &str, i: usize) -> (r: Option<(Expression, usize)>)
    requires
        i <= s@.len(),
    ensures
        match (r, p_mul(s@, i as int)) {
            (Option::Some((e, j)), Option::Some((ev, jv))) => ev_view(e) == ev && j == jv && i <= j
                <= s@.len(),
            (Option::None, Option::None) => true,
            _ => false,
        },
    decreases s@.len() - i, 41int, 0int,
{
    proof {
        reveal(p_mul);
    }
    match e_pow(s, i) {
        Some((lhs, j)) => Some(e_mul_more(s, j, lhs)),
        None => None,
    }
}

/// That level's left-associative loop, executably.
#[verifier::rlimit(50)]
#[verifier::spinoff_prover]
fn e_mul_more(s: &str, i: usize, lhs: Expression) -> (r: (Expression, usize))
    requires
        i <= s@.len(),
    ensures
        p_mul_more(s@, i as int, ev_view(lhs)) == Option::Some(
            (ev_view(r.0), r.1 as int),
        ),
        i <= r.1 <= s@.len(),
    decreases s@.len() - i, 40int, 0int,
{
    proof {
        reveal(p_mul_more);
    }
    proof {
        reveal_strlit("*");
        reveal_strlit("/");
    }
    let a = e_skip_ws(s, i);
    if e_lit_at(s, a, "*") {
        let b = e_skip_ws(s, a + 1);
        match e_pow(s, b) {
            Some((rhs, j)) => {
                if j > i {
                    return e_mul_more(
                        s,
                        j,
                        Expression::BinaryExpression(
                            BinaryExpression::Multiply(Box::new(lhs), Box::new(rhs)),
                        ),
                    );
                }
                (lhs, i)
            },
            None => (lhs, i),
        }
    } else if e_lit_at(s, a, "/") {
        let b = e_skip_ws(s, a + 1);
        match e_pow(s, b) {
            Some((rhs, j)) => {
                if j > i {
                    return e_mul_more(
                        s,
                        j,
                        Expression::BinaryExpression(
                            BinaryExpression::Divide(Box::new(lhs), Box::new(rhs)),
                        ),
                    );
                }
                (lhs, i)
            },
            None => (lhs, i),
        }
    } else {
        (lhs, i)
    }
}

/// That level's entry, executably.
#[verifier::spinoff_prover]
#[verifier::rlimit(100)]
fn e_add(s: &str, i: usize) -> (r: Option<(Expression, usize)>)
    requires
        i <= s@.len(),
    ensures
        match (r, p_add(s@, i as int)) {
            (Option::Some((e, j)), Option::Some((ev, jv))) => ev_view(e) == ev && j == jv && i <= j
                <= s@.len(),
            (Option::None, Option::None) => true,
            _ => false,
        },
    decreases s@.len() - i, 43int, 0int,
{
    proof {
        reveal(p_add);
    }
    match e_mul(s, i) {
        Some((lhs, j)) => Some(e_add_more(s, j, lhs)),
        None => None,
    }
}

/// That level's left-associative loop, executably.
#[verifier::rlimit(50)]
#[verifier::spinoff_prover]
fn e_add_more(s: &str, i: usize, lhs: Expression) -> (r: (Expression, usize))
    requires
        i <= s@.len(),
    ensures
        p_add_more(s@, i as int, ev_view(lhs)) == Option::Some(
            (ev_view(r.0), r.1 as int),
        ),
        i <= r.1 <= s@.len(),
    decreases s@.len() - i, 42int, 0int,
{
    proof {
        reveal(p_add_more);
    }
    proof {
        reveal_strlit("+");
        reveal_strlit("-");
    }
    let a = e_skip_ws(s, i);
    if e_lit_at(s, a, "+") {
        let b = e_skip_ws(s, a + 1);
        match e_mul(s, b) {
            Some((rhs, j)) => {
                if j > i {
                    return e_add_more(
                        s,
                        j,
                        Expression::BinaryExpression(
                            BinaryExpression::Add(Box::new(lhs), Box::new(rhs)),
                        ),
                    );
                }
                (lhs, i)
            },
            None => (lhs, i),
        }
    } else if e_lit_at(s, a, "-") {
        let b = e_skip_ws(s, a + 1);
        match e_mul(s, b) {
            Some((rhs, j)) => {
                if j > i {
                    return e_add_more(
                        s,
                        j,
                        Expression::BinaryExpression(
                            BinaryExpression::Subtract(Box::new(lhs), Box::new(rhs)),
                        ),
                    );
                }
                (lhs, i)
            },
            None => (lhs, i),
        }
    } else {
        (lhs, i)
    }
}


/// One comparison operator attempt, executably.
#[verifier::spinoff_prover]
fn e_cmp_try(s: &str, i: usize, opw: &str) -> (r: Option<(Expression, usize)>)
    requires
        i <= s@.len(),
    ensures
        match (r, p_cmp_try(s@, i as int, opw@)) {
            (Option::Some((e, j)), Option::Some((ev, jv))) => ev_view(e) == ev && j == jv && i <= j
                <= s@.len(),
            (Option::None, Option::None) => true,
            _ => false,
        },
    decreases s@.len() - i, 44int, 0int,
{
    proof {
        reveal(p_cmp_try);
    }
    let a = e_skip_ws(s, i);
    if e_lit_at(s, a, opw) {
        let m = opw.unicode_len();
        let b = e_skip_ws(s, a + m);
        e_add(s, b)
    } else {
        None
    }
}

/// The comparison level's loop, executably.
#[verifier::rlimit(50)]
#[verifier::spinoff_prover]
fn e_cmp_more(s: &str, i: usize, lhs: Expression) -> (r: (Expression, usize))
    requires
        i <= s@.len(),
    ensures
        p_cmp_more(s@, i as int, ev_view(lhs)) == Option::Some((ev_view(r.0), r.1 as int)),
        i <= r.1 <= s@.len(),
    decreases s@.len() - i, 45int, 0int,
{
    proof {
        reveal(p_cmp_more);
    }
    match e_cmp_try(s, i, "=") {
        Some((rhs, j)) => {
            if j > i {
                return e_cmp_more(
                    s,
                    j,
                    Expression::BinaryExpression(
                        BinaryExpression::Eq(Box::new(lhs), Box::new(rhs)),
                    ),
                );
            }
            (lhs, i)
        },
        None => match e_cmp_try(s, i, "<>") {
        Some((rhs, j)) => {
            if j > i {
                return e_cmp_more(
                    s,
                    j,
                    Expression::BinaryExpression(
                        BinaryExpression::Ne(Box::new(lhs), Box::new(rhs)),
                    ),
                );
            }
            (lhs, i)
        },
        None => match e_cmp_try(s, i, "<") {
        Some((rhs, j)) => {
            if j > i {
                return e_cmp_more(
                    s,
                    j,
                    Expression::BinaryExpression(
                        BinaryExpression::Lt(Box::new(lhs), Box::new(rhs)),
                    ),
                );
            }
            (lhs, i)
        },
        None => match e_cmp_try(s, i, "<=") {
        Some((rhs, j)) => {
            if j > i {
                return e_cmp_more(
                    s,
                    j,
                    Expression::BinaryExpression(
                        BinaryExpression::Le(Box::new(lhs), Box::new(rhs)),
                    ),
                );
            }
            (lhs, i)
        },
        None => match e_cmp_try(s, i, ">") {
        Some((rhs, j)) => {
            if j > i {
                return e_cmp_more(
                    s,
                    j,
                    Expression::BinaryExpression(
                        BinaryExpression::Gt(Box::new(lhs), Box::new(rhs)),
                    ),
                );
            }
            (lhs, i)
        },
        None => match e_cmp_try(s, i, ">=") {
        Some((rhs, j)) => {
            if j > i {
                return e_cmp_more(
                    s,
                    j,
                    Expression::BinaryExpression(
                        BinaryExpression::Ge(Box::new(lhs), Box::new(rhs)),
                    ),
                );
            }
            (lhs, i)
        },
        None => match e_cmp_try(s, i, "in") {
        Some((rhs, j)) => {
            if j > i {
                return e_cmp_more(
                    s,
                    j,
                    Expression::BinaryExpression(
                        BinaryExpression::In(Box::new(lhs), Box::new(rhs), false),
                    ),
                );
            }
            (lhs, i)
        },
        None => match e_cmp_try(s, i, "exactin") {
            Some((rhs, j)) => {
                if j > i {
                    return e_cmp_more(
                        s,
                        j,
                        Expression::BinaryExpression(
                            BinaryExpression::In(Box::new(lhs), Box::new(rhs), true),
                        ),
                    );
                }
                (lhs, i)
            },
            None => (lhs, i),
        },
    }}}}}}}
}

/// The comparison level's entry, executably.
#[verifier::spinoff_prover]
fn e_cmp(s: &str, i: usize) -> (r: Option<(Expression, usize)>)
    requires
        i <= s@.len(),
    ensures
        match (r, p_cmp(s@, i as int)) {
            (Option::Some((e, j)), Option::Some((ev, jv))) => ev_view(e) == ev && j == jv && i <= j
                <= s@.len(),
            (Option::None, Option::None) => true,
            _ => false,
        },
    decreases s@.len() - i, 46int, 0int,
{
    proof {
        reveal(p_cmp);
    }
    match e_add(s, i) {
        Some((lhs, j)) => Some(e_cmp_more(s, j, lhs)),
        None => None,
    }
}

/// The prefix level, executably: the `Not` keyword form.
#[verifier::spinoff_prover]
fn e_not(s: &str, i: usize) -> (r: Option<(Expression, usize)>)
    requires
        i <= s@.len(),
    ensures
        match (r, p_not(s@, i as int)) {
            (Option::Some((e, j)), Option::Some((ev, jv))) => ev_view(e) == ev && j == jv && i <= j
                <= s@.len(),
            (Option::None, Option::None) => true,
            _ => false,
        },
    decreases s@.len() - i, 47int, 0int,
{
    proof {
        reveal(p_not);
    }
    proof {
        reveal_strlit("Not");
    }
    if e_lit_at(s, i, "Not") {
        let a = e_skip_sp(s, i + 3);
        if a > i + 3 {
            match e_not(s, a) {
                Some((c, j)) => {
                    return Some((Expression::UnaryExpression(UnaryExpression::Not(Box::new(c))), j));
                },
                None => {
                    return e_not_bang(s, i);
                },
            }
        }
    }
    e_not_bang(s, i)
}

/// The prefix level, executably: the `!` form and the fall-through.
#[verifier::spinoff_prover]
fn e_not_bang(s: &str, i: usize) -> (r: Option<(Expression, usize)>)
    requires
        i <= s@.len(),
    ensures
        match (r, p_not_bang(s@, i as int)) {
            (Option::Some((e, j)), Option::Some((ev, jv))) => ev_view(e) == ev && j == jv && i <= j
                <= s@.len(),
            (Option::None, Option::None) => true,
            _ => false,
        },
    decreases s@.len() - i, 46int, 1int,
{
    proof {
        reveal(p_not_bang);
    }
    proof {
        reveal_strlit("!");
    }
    if e_lit_at(s, i, "!") {
        let a = e_skip_sp(s, i + 1);
        match e_not(s, a) {
            Some((c, j)) => Some((Expression::UnaryExpression(UnaryExpression::Not(Box::new(c))), j)),
            None => e_cmp(s, i),
        }
    } else {
        e_cmp(s, i)
    }
}

/// The first level's loop, executably.
#[verifier::rlimit(50)]
#[verifier::spinoff_prover]
fn e_expr_more(s: &str, i: usize, lhs: Expression) -> (r: (Expression, usize))
    requires
        i <= s@.len(),
    ensures
        p_expr_more(s@, i as int, ev_view(lhs)) == Option::Some((ev_view(r.0), r.1 as int)),
        i <= r.1 <= s@.len(),
    decreases s@.len() - i, 49int, 0int,
{
    proof {
        reveal(p_expr_more);
    }
    proof {
        reveal_strlit("And");
        reveal_strlit("Or");
        reveal_strlit("&&");
        reveal_strlit("||");
    }
    let a = e_skip_ws(s, i);
    let and_kw = a > i && e_lit_at(s, a, "And");
    let and_b = if and_kw {
        e_skip_ws(s, a + 3)
    } else {
        a
    };
    if and_kw && and_b > a + 3 {
        match e_not(s, and_b) {
            Some((rhs, j)) => {
                if j > i {
                    return e_expr_more(
                        s,
                        j,
                        Expression::BinaryExpression(
                            BinaryExpression::And(Box::new(lhs), Box::new(rhs)),
                        ),
                    );
                }
                return (lhs, i);
            },
            None => {
                return (lhs, i);
            },
        }
    }
    let or_kw = a > i && e_lit_at(s, a, "Or");
    let or_b = if or_kw {
        e_skip_ws(s, a + 2)
    } else {
        a
    };
    if !(and_kw && and_b > a + 3) && or_kw && or_b > a + 2 {
        match e_not(s, or_b) {
            Some((rhs, j)) => {
                if j > i {
                    return e_expr_more(
                        s,
                        j,
                        Expression::BinaryExpression(
                            BinaryExpression::Or(Box::new(lhs), Box::new(rhs)),
                        ),
                    );
                }
                return (lhs, i);
            },
            None => {
                return (lhs, i);
            },
        }
    }
    if !(and_kw && and_b > a + 3) && !(or_kw && or_b > a + 2) && e_lit_at(s, a, "&&") {
        let b = e_skip_ws(s, a + 2);
        match e_not(s, b) {
            Some((rhs, j)) => {
                if j > i {
                    return e_expr_more(
                        s,
                        j,
                        Expression::BinaryExpression(
                            BinaryExpression::And(Box::new(lhs), Box::new(rhs)),
                        ),
                    );
                }
                return (lhs, i);
            },
            None => {
                return (lhs, i);
            },
        }
    }
    if !(and_kw && and_b > a + 3) && !(or_kw && or_b > a + 2) && !e_lit_at(s, a, "&&") && e_lit_at(
        s,
        a,
        "||",
    ) {
        let b = e_skip_ws(s, a + 2);
        match e_not(s, b) {
            Some((rhs, j)) => {
                if j > i {
                    return e_expr_more(
                        s,
                        j,
                        Expression::BinaryExpression(
                            BinaryExpression::Or(Box::new(lhs), Box::new(rhs)),
                        ),
                    );
                }
                return (lhs, i);
            },
            None => {
                return (lhs, i);
            },
        }
    }
    (lhs, i)
}

/// An expression, executably.
#[verifier::spinoff_prover]
fn e_expr(s: &str, i: usize) -> (r: Option<(Expression, usize)>)
    requires
        i <= s@.len(),
    ensures
        match (r, p_expr(s@, i as int)) {
            (Option::Some((e, j)), Option::Some((ev, jv))) => ev_view(e) == ev && j == jv && i <= j
                <= s@.len(),
            (Option::None, Option::None) => true,
            _ => false,
        },
    decreases s@.len() - i, 50int, 0int,
{
    proof {
        reveal(p_expr);
    }
    match e_not(s, i) {
        Some((lhs, j)) => Some(e_expr_more(s, j, lhs)),
        None => None,
    }
}

/// A top-level expression with its optional projection alias, executably.
#[verifier::spinoff_prover]
fn e_proj(s: &str, i: usize) -> (r: Option<(Expression, usize)>)
    requires
        i <= s@.len(),
    ensures
        match (r, p_proj(s@, i as int)) {
            (Option::Some((e, j)), Option::Some((ev, jv))) => ev_view(e) == ev && j == jv && i <= j
                <= s@.len(),
            (Option::None, Option::None) => true,
            _ => false,
        },
    decreases s@.len() - i, 51int, 0int,
{
    proof {
        reveal(p_proj);
    }
    proof {
        reveal_strlit("AS");
        reveal_strlit("as");
    }
    match e_expr(s, i) {
        Some((e, j)) => {
            let a = e_skip_sp(s, j);
            if e_lit_at(s, a, "AS") || e_lit_at(s, a, "as") {
                let b = e_skip_sp(s, a + 2);
                match e_ident(s, b) {
                    Some((name, j2)) => Some(
                        (
                            Expression::UnaryExpression(
                                UnaryExpression::Alias { source: Box::new(e), alias: name },
                            ),
                            j2,
                        ),
                    ),
                    None => Some((e, j)),
                }
            } else {
                Some((e, j))
            }
        },
        None => None,
    }
}

/// The later expressions of a program, executably.
#[verifier::spinoff_prover]
fn e_list_more(s: &str, i: usize, es: &mut Vec<Expression>) -> (r: usize)
    requires
        i <= s@.len(),
    ensures
        ({
            let (accv, jv) = p_list_more(s@, i as int, crate::ast::eargs_view(old(es)@));
            crate::ast::eargs_view(final(es)@) == accv && r as int == jv && i <= r <= s@.len()
        }),
    decreases s@.len() - i, 52int, 0int,
{
    proof {
        reveal(p_list_more);
    }
    proof {
        reveal_strlit(";");
    }
    let a = e_skip_ws(s, i);
    if e_lit_at(s, a, ";") {
        let b = e_skip_ws(s, a + 1);
        match e_proj(s, b) {
            Some((e, j)) => {
                if j > i {
                    let ghost oldes = es@;
                    es.push(e);
                    proof {
                        assert(es@.drop_last() =~= oldes);
                    }
                    e_list_more(s, j, es)
                } else {
                    i
                }
            },
            None => i,
        }
    } else {
        i
    }
}

/// A whole program with no trailing semicolon, executably.
#[verifier::rlimit(100)]
#[verifier::spinoff_prover]
fn e_program_full(s: &str) -> (r: Option<Vec<Expression>>)
    ensures
        match (r, p_program_full(s@)) {
            (Option::Some(v), Option::Some(sv)) => crate::ast::eargs_view(v@) == sv,
            (Option::None, Option::None) => true,
            _ => false,
        },
{
    proof {
        reveal(p_program_full);
    }
    match e_proj(s, 0) {
        Some((e1, j)) => {
            let mut es: Vec<Expression> = Vec::new();
            let ghost e1v = ev_view(e1);
            es.push(e1);
            proof {
                assert(es@.drop_last() =~= Seq::<Expression>::empty());
                assert(es@.drop_last().len() == 0);
                assert(crate::ast::eargs_view(es@) == crate::ast::eargs_view(
                    es@.drop_last(),
                ).push(ev_view(es@.last())));
                assert(crate::ast::eargs_view(es@) =~= seq![e1v]);
            }
            let j2 = e_list_more(s, j, &mut es);
            let e = e_skip_ws(s, j2);
            if e == s.unicode_len() {
                Some(es)
            } else {
                None
            }
        },
        None => None,
    }
}

/// Parses a program: one or more expressions separated by semicolons,
/// with a single optional trailing semicolon; empty input is a parse
/// error.
#[verifier::spinoff_prover]
pub fn parse(input: &str) -> (r: Result<Vec<Expression>, EvaluationError>)
    ensures
        match (r, spec_parse(input@)) {
            (Result::Ok(es), Option::Some(esv)) => crate::ast::eargs_view(es@) == esv,
            (Result::Err(e), Option::None) => e@ == ErrV::ParseError(
                "the input could not be parsed"@,
            ),
            _ => false,
        },
{
    proof {
        reveal(spec_parse);
    }
    let n = input.unicode_len();
    if n > 0 && input.get_char(n - 1) == ';' {
        let head = input.substring_char(0, n - 1);
        proof {
            assert(head@ =~= input@.drop_last());
        }
        match e_program_full(head) {
            Some(es) => {
                return Ok(es);
            },
            None => {},
        }
    }
    match e_program_full(input) {
        Some(es) => Ok(es),
        None => Err(EvaluationError::ParseError("the input could not be parsed".to_owned())),
    }
}

} // verus!

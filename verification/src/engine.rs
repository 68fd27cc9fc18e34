//! The engine: the host's entry point, with every built-in registered
//! under its language name.
use vstd::prelude::*;

use crate::ast::Expression;
use crate::ast::eargs_view;
use crate::evaluator::ErrV;
use crate::evaluator::EvaluationError;
use crate::evaluator::ExpressionEvaluator;
use crate::evaluator::SessView;
use crate::evaluator::Session;
use crate::evaluator::err_view;
use crate::evaluator::spec_eval;
use crate::function_registry::Function;
use crate::function_registry::FunctionRegistry;
use crate::lexer::spec_parse;
use crate::models::DataValue;
use crate::models::Val;
use crate::models::dv_view;

verus! {

/// The registry the engine starts with: every built-in under its
/// language name.
pub open spec fn builtin_map() -> Map<Seq<char>, Function> {
    Map::empty().insert("Table"@, Function::Table).insert("First"@, Function::First).insert(
        "Last"@,
        Function::Last,
    ).insert("Index"@, Function::Index).insert("Filter"@, Function::Filter).insert(
        "Set"@,
        Function::SetVar,
    ).insert("If"@, Function::If).insert("And"@, Function::And).insert("Or"@, Function::Or).insert(
        "Not"@,
        Function::Not,
    ).insert("Abs"@, Function::Abs).insert("Sqrt"@, Function::Sqrt).insert(
        "Left"@,
        Function::Left,
    ).insert("Mid"@, Function::Mid).insert("Right"@, Function::Right).insert(
        "Upper"@,
        Function::Upper,
    ).insert("Lower"@, Function::Lower).insert("Average"@, Function::Average).insert(
        "Sum"@,
        Function::Sum,
    ).insert("Min"@, Function::Min).insert("Max"@, Function::Max)
}

/// Evaluates a program's expressions from place `i` on, in order; the
/// whole run yields the last expression's value, `acc` standing in while
/// none has been evaluated yet.
pub open spec fn spec_run(
    fr: Map<Seq<char>, Function>,
    s: SessView,
    es: Seq<Expression>,
    i: int,
    acc: Val,
) -> (SessView, Result<Val, ErrV>)
    decreases es.len() - i,
    when 0 <= i <= es.len()
{
    if i >= es.len() {
        (s, Result::Ok(acc))
    } else {
        let (s1, r) = spec_eval(fr, s, es[i]);
        match r {
            Result::Ok(v) => spec_run(fr, s1, es, i + 1, v),
            Result::Err(er) => (s1, Result::Err(er)),
        }
    }
}

/// The engine: a parser in front of an evaluator whose registry holds
/// all built-ins.
pub struct PowerFxEngine {
    evaluator: ExpressionEvaluator,
}

impl View for PowerFxEngine {
    type V = Map<Seq<char>, Function>;

    closed spec fn view(&self) -> Map<Seq<char>, Function> {
        self.evaluator@
    }
}

impl PowerFxEngine {
    /// An engine with every built-in pre-registered.
    pub fn new() -> (r: PowerFxEngine)
        ensures
            r@ == builtin_map(),
    {
        let mut function_registry = FunctionRegistry::new();
        function_registry.register_function("Table", Function::Table);
        function_registry.register_function("First", Function::First);
        function_registry.register_function("Last", Function::Last);
        function_registry.register_function("Index", Function::Index);
        function_registry.register_function("Filter", Function::Filter);
        function_registry.register_function("Set", Function::SetVar);
        function_registry.register_function("If", Function::If);
        function_registry.register_function("And", Function::And);
        function_registry.register_function("Or", Function::Or);
        function_registry.register_function("Not", Function::Not);
        function_registry.register_function("Abs", Function::Abs);
        function_registry.register_function("Sqrt", Function::Sqrt);
        function_registry.register_function("Left", Function::Left);
        function_registry.register_function("Mid", Function::Mid);
        function_registry.register_function("Right", Function::Right);
        function_registry.register_function("Upper", Function::Upper);
        function_registry.register_function("Lower", Function::Lower);
        function_registry.register_function("Average", Function::Average);
        function_registry.register_function("Sum", Function::Sum);
        function_registry.register_function("Min", Function::Min);
        function_registry.register_function("Max", Function::Max);
        PowerFxEngine { evaluator: ExpressionEvaluator::new(function_registry) }
    }

    /// Parses the text and evaluates its expressions in order against the
    /// session: the last expression's value comes back (Blank for none
    /// evaluated), the first error aborts the run, and a rejected text
    /// leaves the session untouched.
    #[verifier::loop_isolation(false)]
    pub fn evaluate(&self, expression: &str, session: &mut Session) -> (r: Result<
        DataValue,
        EvaluationError,
    >)
        ensures
            match spec_parse(expression@) {
                Option::Some(esv) => exists|es: Seq<Expression>|
                    {
                        &&& #[trigger] eargs_view(es) == esv
                        &&& {
                            let (s2, rv) = spec_run(self@, old(session)@, es, 0, Val::Blank);
                            &&& final(session)@ == s2
                            &&& match (r, rv) {
                                (Result::Ok(v), Result::Ok(w)) => dv_view(v) == w,
                                (Result::Err(e), Result::Err(f)) => err_view(e) == f,
                                _ => false,
                            }
                        }
                    },
                Option::None => {
                    &&& final(session)@ == old(session)@
                    &&& r matches Result::Err(e) && err_view(e) == ErrV::ParseError(
                        "the input could not be parsed"@,
                    )
                },
            },
    {
        let expressions = match crate::lexer::parse(expression) {
            Ok(es) => es,
            Err(e) => {
                return Err(e);
            },
        };
        let ghost s0 = session@;
        let ghost esg = expressions@;
        let mut result = DataValue::Blank;
        let mut i: usize = 0;
        while i < expressions.len()
            invariant
                0 <= i <= expressions@.len(),
                expressions@ == esg,
                spec_run(self@, s0, esg, 0, Val::Blank) == spec_run(
                    self@,
                    session@,
                    esg,
                    i as int,
                    dv_view(result),
                ),
            decreases expressions@.len() - i,
        {
            match self.evaluator.evaluate_expression(session, &expressions[i]) {
                Ok(v) => {
                    result = v;
                },
                Err(e) => {
                    proof {
                        assert(eargs_view(esg) == spec_parse(expression@)->Some_0);
                    }
                    return Err(e);
                },
            }
            i = i + 1;
        }
        proof {
            assert(eargs_view(esg) == spec_parse(expression@)->Some_0);
        }
        Ok(result)
    }
}

} // verus!

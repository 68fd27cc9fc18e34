use powerfx::ast::{Literal, UnaryExpression};
use powerfx::engine::PowerFxEngine;
use powerfx::evaluator::{EvaluationError, ExpressionEvaluator, Session};
use powerfx::function_registry::FunctionRegistry;
use powerfx::lexer::parse;
use powerfx::models::{DataValue, Date, Record};

fn run(text: &str) -> Result<DataValue, EvaluationError> {
    let engine = PowerFxEngine::new();
    let mut session = Session::new();
    engine.evaluate(text, &mut session)
}

fn num(x: f64) -> DataValue {
    DataValue::Number(x.to_bits())
}

#[test]
fn precedence_mirrors_parentheses() {
    let left = parse("a + b * c").unwrap();
    let right = parse("a + (b * c)").unwrap();
    assert_eq!(format!("{:?}", left), format!("{:?}", right));

    let left = parse("a * b + c").unwrap();
    let right = parse("(a * b) + c").unwrap();
    assert_eq!(format!("{:?}", left), format!("{:?}", right));
}

#[test]
fn whitespace_between_tokens_is_free() {
    let tight = parse("1+2*3").unwrap();
    let loose = parse("1 +  2 \n * \t 3").unwrap();
    assert_eq!(format!("{:?}", tight), format!("{:?}", loose));
}

#[test]
fn trailing_semicolon_is_allowed() {
    let bare = parse("e").unwrap();
    let closed = parse("e;").unwrap();
    assert_eq!(bare.len(), 1);
    assert_eq!(closed.len(), 1);
    assert_eq!(format!("{:?}", bare), format!("{:?}", closed));

    let two = parse("a; b").unwrap();
    assert_eq!(two.len(), 2);
}

#[test]
fn plain_addition() {
    assert_eq!(run("2 + 3").unwrap(), num(5.0));
}

#[test]
fn session_variables_add() {
    let engine = PowerFxEngine::new();
    let mut session = Session::new();
    session.set_variable("a", num(2.0));
    session.set_variable("b", num(3.0));
    assert_eq!(engine.evaluate("a + b", &mut session).unwrap(), num(5.0));
}

#[test]
fn set_then_filter() {
    let engine = PowerFxEngine::new();
    let mut session = Session::new();
    let _ = engine.evaluate(
        "Set(table1, Table({ Name: 'Foo', Age: 30 }, { Name: 'Baz', Age: 25 }, { Name: 'Bar', Age: 43 })); Filter(table1, Age >= 29)",
        &mut session,
    ).unwrap();
    let again = engine.evaluate("Filter(table1, Age >= 29)", &mut session).unwrap();
    assert_eq!(
        again,
        DataValue::Table(vec![
            Record::from(vec![
                ("Age".to_string(), num(30.0)),
                ("Name".to_string(), DataValue::Text("Foo".to_string())),
            ]),
            Record::from(vec![
                ("Age".to_string(), num(43.0)),
                ("Name".to_string(), DataValue::Text("Bar".to_string())),
            ]),
        ])
    );
}

#[test]
fn averages_over_projections() {
    let engine = PowerFxEngine::new();
    let mut session = Session::new();
    let _ = engine.evaluate(
        "Set(table1, Table({ Name: 'Foo', Age: 30 }, { Name: 'Baz', Age: 25 }, { Name: 'Bar', Age: 43 }))",
        &mut session,
    ).unwrap();
    let expected = (((0.0 + 30.0) + 25.0) + 43.0) / 3.0;
    assert_eq!(engine.evaluate("Average(table1, Age)", &mut session).unwrap(), num(expected));
    let expected = (((0.0 + 40.0) + 35.0) + 53.0) / 3.0;
    assert_eq!(engine.evaluate("Average(table1, Age + 10)", &mut session).unwrap(), num(expected));
}

#[test]
fn min_and_max_of_arguments() {
    assert_eq!(run("Min(3, 7, 5)").unwrap(), num(3.0));
    assert_eq!(run("Max(3, 7, 5)").unwrap(), num(7.0));
}

#[test]
fn containment_folds_case_only_for_in() {
    assert_eq!(run("'foo' in 'FOOBAR'").unwrap(), DataValue::Boolean(true));
    assert_eq!(run("'foo' exactin 'FOOBAR'").unwrap(), DataValue::Boolean(false));
    assert_eq!(run("'OBA' exactin 'FOOBAR'").unwrap(), DataValue::Boolean(true));
}

#[test]
fn parse_failures() {
    assert!(matches!(run("'foo"), Err(EvaluationError::ParseError(_))));
    assert!(matches!(run(""), Err(EvaluationError::ParseError(_))));
    assert!(matches!(run("1 +"), Err(EvaluationError::ParseError(_))));
}

#[test]
fn evaluation_failures() {
    assert!(matches!(run("Unknown(1)"), Err(EvaluationError::UnknownFunction(_))));
    assert!(matches!(run("x + 1"), Err(EvaluationError::UnknownIdentifier(_))));
    assert!(matches!(run("Sqrt(1, 2)"), Err(EvaluationError::InvalidArgumentCount(_))));
    assert!(matches!(run("1 in 2"), Err(EvaluationError::InvalidType)));
}

#[test]
fn real_literals_round() {
    assert_eq!(run("0.5 + 0.25").unwrap(), num(0.75));
    assert_eq!(run("-0.5 * 2").unwrap(), num(-1.0));
}

#[test]
fn division_follows_ieee() {
    assert_eq!(run("1 / 0").unwrap(), num(f64::INFINITY));
    assert_eq!(run("7 % 4").unwrap(), num(3.0));
}

#[test]
fn mixed_addition_becomes_text() {
    assert_eq!(run("1 + 'x'").unwrap(), DataValue::Text("1x".to_string()));
    assert_eq!(run("'x' + 2").unwrap(), DataValue::Text("x2".to_string()));
    assert_eq!(run("'a' + 'b'").unwrap(), DataValue::Text("ab".to_string()));
    assert_eq!(run("'yes: ' + true").unwrap(), DataValue::Text("yes: true".to_string()));
    assert_eq!(run("1 + true").unwrap(), DataValue::Blank);
}

#[test]
fn equality_is_per_variant() {
    assert_eq!(run("1 = 1").unwrap(), DataValue::Boolean(true));
    assert_eq!(run("1 = 2").unwrap(), DataValue::Boolean(false));
    assert_eq!(run("1 <> 2").unwrap(), DataValue::Boolean(true));
    assert_eq!(run("'a' = 1").unwrap(), DataValue::Boolean(false));
    assert_eq!(run("'a' <> 1").unwrap(), DataValue::Boolean(true));
    assert_eq!(run("'a' < 'b'").unwrap(), DataValue::Boolean(false));
}

#[test]
fn record_fields_sort_by_name() {
    assert_eq!(run("{ b: 1, a: 2 } = { a: 2, b: 1 }").unwrap(), DataValue::Boolean(true));
    assert_eq!(run("{ a: 1 } = { a: 2 }").unwrap(), DataValue::Boolean(false));
}

#[test]
fn blank_equals_blank() {
    assert_eq!(run("Set(x, 1)").unwrap(), DataValue::Blank);
    assert_eq!(run("Set(x, 1) = Set(y, 2)").unwrap(), DataValue::Boolean(true));
}

#[test]
fn is_blank_and_its_negation() {
    let evaluator = ExpressionEvaluator::new(FunctionRegistry::new());
    let mut session = Session::new();
    let one = UnaryExpression::literal(Literal::Number(1.0f64.to_bits()));
    let blank = UnaryExpression::literal(Literal::Blank);
    let r = evaluator
        .evaluate_expression(&mut session, &UnaryExpression::is_blank(one))
        .unwrap();
    assert_eq!(r, DataValue::Boolean(false));
    let r = evaluator
        .evaluate_expression(&mut session, &UnaryExpression::is_blank(blank))
        .unwrap();
    assert_eq!(r, DataValue::Boolean(true));
    let two = UnaryExpression::literal(Literal::Number(2.0f64.to_bits()));
    let r = evaluator
        .evaluate_expression(&mut session, &UnaryExpression::is_not_blank(two))
        .unwrap();
    assert_eq!(r, DataValue::Boolean(true));
    let inner = UnaryExpression::literal(Literal::Blank);
    let r = evaluator
        .evaluate_expression(
            &mut session,
            &UnaryExpression::not(UnaryExpression::is_blank(inner)),
        )
        .unwrap();
    assert_eq!(r, DataValue::Boolean(false));
}

#[test]
fn filter_by_constant_predicates() {
    let engine = PowerFxEngine::new();
    let mut session = Session::new();
    let _ = engine
        .evaluate("Set(t, Table({ a: 1 }, { a: 2 }))", &mut session)
        .unwrap();
    let all = engine.evaluate("Filter(t, true) = t", &mut session).unwrap();
    assert_eq!(all, DataValue::Boolean(true));
    let none = engine.evaluate("Filter(t, false) = Table()", &mut session).unwrap();
    assert_eq!(none, DataValue::Boolean(true));
}

#[test]
fn first_last_index_pick_rows() {
    let engine = PowerFxEngine::new();
    let mut session = Session::new();
    let _ = engine
        .evaluate("Set(t, Table({ a: 1 }, { a: 2 }, { a: 3 }))", &mut session)
        .unwrap();
    assert_eq!(
        engine.evaluate("First(t) = { a: 1 }", &mut session).unwrap(),
        DataValue::Boolean(true)
    );
    assert_eq!(
        engine.evaluate("Last(t) = { a: 3 }", &mut session).unwrap(),
        DataValue::Boolean(true)
    );
    assert_eq!(
        engine.evaluate("Index(t, 1) = { a: 2 }", &mut session).unwrap(),
        DataValue::Boolean(true)
    );
    assert_eq!(engine.evaluate("Index(t, 9)", &mut session).unwrap(), DataValue::Blank);
    assert_eq!(engine.evaluate("First(Table())", &mut session).unwrap(), DataValue::Blank);
}

#[test]
fn sum_over_table_equals_sum_of_values() {
    let engine = PowerFxEngine::new();
    let mut session = Session::new();
    let _ = engine
        .evaluate("Set(t, Table({ x: 3 }, { x: 7 }, { x: 5 }))", &mut session)
        .unwrap();
    let tabular = engine.evaluate("Sum(t, x)", &mut session).unwrap();
    let variadic = engine.evaluate("Sum(3, 7, 5)", &mut session).unwrap();
    assert_eq!(tabular, variadic);
    assert_eq!(tabular, num(15.0));
}

#[test]
fn logic_builtins() {
    assert_eq!(run("If(true, 1, 2)").unwrap(), num(1.0));
    assert_eq!(run("If(false, 1, 2)").unwrap(), num(2.0));
    assert_eq!(run("If(false, 1)").unwrap(), DataValue::Blank);
    assert_eq!(run("And(true, true, false)").unwrap(), DataValue::Boolean(false));
    assert_eq!(run("Or(false, true)").unwrap(), DataValue::Boolean(true));
    assert_eq!(run("Not(true)").unwrap(), DataValue::Boolean(false));
    assert_eq!(run("true && false").unwrap(), DataValue::Boolean(false));
    assert_eq!(run("true Or false").unwrap(), DataValue::Boolean(true));
}

#[test]
fn math_builtins() {
    assert_eq!(run("Abs(0 - 3)").unwrap(), num(3.0));
    assert_eq!(run("Sqrt(9)").unwrap(), num(3.0));
    assert_eq!(run("Sqrt(2)").unwrap(), num(2.0f64.sqrt()));
    assert_eq!(run("Sqrt(0.25)").unwrap(), num(0.5));
    let r = run("Sqrt(0 - 1)").unwrap();
    match r {
        DataValue::Number(bits) => assert!(f64::from_bits(bits).is_nan()),
        _ => panic!("expected a number"),
    }
}

#[test]
fn text_builtins() {
    assert_eq!(run("Upper('abc')").unwrap(), DataValue::Text("ABC".to_string()));
    assert_eq!(run("Lower('AbC')").unwrap(), DataValue::Text("abc".to_string()));
    assert_eq!(run("Left('hello', 2)").unwrap(), DataValue::Text("he".to_string()));
    assert_eq!(run("Right('hello', 3)").unwrap(), DataValue::Text("llo".to_string()));
    assert_eq!(run("Mid('hello', 2, 3)").unwrap(), DataValue::Text("ell".to_string()));
    assert_eq!(run("Mid('hello', 3)").unwrap(), DataValue::Text("llo".to_string()));
    assert_eq!(run("Left('hi', 99)").unwrap(), DataValue::Text("hi".to_string()));
}

#[test]
fn dates_compare_chronologically() {
    let engine = PowerFxEngine::new();
    let mut session = Session::new();
    session.set_variable("d1", DataValue::Date(Date { year: 2023, month: 5, day: 31 }));
    session.set_variable("d2", DataValue::Date(Date { year: 2023, month: 6, day: 1 }));
    assert_eq!(engine.evaluate("d1 < d2", &mut session).unwrap(), DataValue::Boolean(true));
    assert_eq!(engine.evaluate("d1 = d1", &mut session).unwrap(), DataValue::Boolean(true));
    assert_eq!(engine.evaluate("d2 <= d1", &mut session).unwrap(), DataValue::Boolean(false));
}

#[test]
fn projection_alias_keeps_the_value() {
    assert_eq!(run("2 + 3 AS total").unwrap(), num(5.0));
    let es = parse("a AS b").unwrap();
    assert_eq!(es.len(), 1);
    assert!(format!("{:?}", es[0]).contains("Alias"));
}

#[test]
fn nan_is_not_equal_to_itself() {
    assert_eq!(run("(0 / 0) = (0 / 0)").unwrap(), DataValue::Boolean(false));
}

#[test]
fn arithmetic_commutes_and_distributes() {
    let engine = PowerFxEngine::new();
    let mut session = Session::new();
    session.set_variable("a", num(2.5));
    session.set_variable("b", num(7.25));
    session.set_variable("c", num(0.125));
    assert_eq!(
        engine.evaluate("a + b", &mut session).unwrap(),
        engine.evaluate("b + a", &mut session).unwrap()
    );
    assert_eq!(
        engine.evaluate("a * b", &mut session).unwrap(),
        engine.evaluate("b * a", &mut session).unwrap()
    );
    assert_eq!(
        engine.evaluate("a * (b + c)", &mut session).unwrap(),
        engine.evaluate("a * b + a * c", &mut session).unwrap()
    );
}

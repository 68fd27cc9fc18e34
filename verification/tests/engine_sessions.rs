use powerfx::engine::PowerFxEngine;
use powerfx::evaluator::Session;
use powerfx::models::{DataValue, Record};

#[test]
fn arithmetic() {
    let engine = PowerFxEngine::new();

    let mut session = Session::new();
    session.set_variable("a", DataValue::Number(2.0f64.to_bits()));
    session.set_variable("b", DataValue::Number(3.0f64.to_bits()));

    let result = engine.evaluate("a + b", &mut session).unwrap();
    assert_eq!(result, DataValue::Number(5.0f64.to_bits()));

    let result = engine.evaluate("b - a", &mut session).unwrap();
    assert_eq!(result, DataValue::Number(1.0f64.to_bits()));

    let result = engine.evaluate("a * b", &mut session).unwrap();
    assert_eq!(result, DataValue::Number(6.0f64.to_bits()));

    let result = engine.evaluate("b / a", &mut session).unwrap();
    assert_eq!(result, DataValue::Number(1.5f64.to_bits()));
}

#[test]
fn aggregation() {
    let engine = PowerFxEngine::new();

    let mut session = Session::new();
    session.set_variable("a", DataValue::Number(3.0f64.to_bits()));
    session.set_variable("b", DataValue::Number(7.0f64.to_bits()));
    session.set_variable("c", DataValue::Number(5.0f64.to_bits()));

    let result = engine.evaluate("Min(a, b, c)", &mut session).unwrap();
    assert_eq!(result, DataValue::Number(3.0f64.to_bits()));

    let result = engine.evaluate("Max(a, b, c)", &mut session).unwrap();
    assert_eq!(result, DataValue::Number(7.0f64.to_bits()));

    let result = engine.evaluate("Sum(a, b, c)", &mut session).unwrap();
    assert_eq!(result, DataValue::Number(15.0f64.to_bits()));

    let result = engine.evaluate("Average(a, b, c)", &mut session).unwrap();
    assert_eq!(result, DataValue::Number(5.0f64.to_bits()));
}

#[test]
fn aggregation_with_tables() {
    let engine = PowerFxEngine::new();

    let mut session = Session::new();
    let _ = engine.evaluate(
        "Set(table1, Table({ Name: 'Foo', Age: 30 }, { Name: 'Bar', Age: 43 }))",
        &mut session,
    );

    let result = engine.evaluate("Min(table1, Age)", &mut session).unwrap();
    assert_eq!(result, DataValue::Number(30.0f64.to_bits()));

    let result = engine.evaluate("Max(table1, Age)", &mut session).unwrap();
    assert_eq!(result, DataValue::Number(43.0f64.to_bits()));

    let result = engine.evaluate("Sum(table1, Age)", &mut session).unwrap();
    assert_eq!(result, DataValue::Number(73.0f64.to_bits()));

    let result = engine.evaluate("Average(table1, Age)", &mut session).unwrap();
    assert_eq!(result, DataValue::Number(36.5f64.to_bits()));

    let result = engine.evaluate("Average(table1, Age + 10)", &mut session).unwrap();
    assert_eq!(result, DataValue::Number(46.5f64.to_bits()));
}

#[test]
fn tables() {
    let engine = PowerFxEngine::new();

    let mut session = Session::new();
    let _ = engine.evaluate(
        "Set(table1, Table({ Name: 'Foo', Age: 30 }, { Name: 'Baz', Age: 25 }, { Name: 'Bar', Age: 43 }))",
        &mut session,
    );

    let result = engine.evaluate("Filter(table1, Age >= 29)", &mut session).unwrap();
    assert_eq!(
        result,
        DataValue::Table(vec![
            Record::from(vec![
                ("Name".to_string(), DataValue::Text("Foo".to_string())),
                ("Age".to_string(), DataValue::Number(30.0f64.to_bits())),
            ]),
            Record::from(vec![
                ("Name".to_string(), DataValue::Text("Bar".to_string())),
                ("Age".to_string(), DataValue::Number(43.0f64.to_bits())),
            ]),
        ])
    );

    let result = engine.evaluate("First(table1)", &mut session).unwrap();
    assert_eq!(
        result,
        DataValue::Record(Record::from(vec![
            ("Name".to_string(), DataValue::Text("Foo".to_string())),
            ("Age".to_string(), DataValue::Number(30.0f64.to_bits())),
        ]))
    );
}

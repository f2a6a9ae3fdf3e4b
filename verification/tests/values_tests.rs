use ellex_core::{Bindings, EllexFunction, EllexValue, Statement};

fn number(x: f64) -> EllexValue {
    EllexValue::Number(x.to_bits())
}

#[test]
fn test_ellex_function_creation() {
    let func = EllexFunction {
        name: "greet".to_string(),
        body: vec![Statement::Tell(EllexValue::String("Hello!".to_string()))],
        params: vec!["name".to_string()],
    };

    assert_eq!(func.name, "greet");
    assert_eq!(func.params.len(), 1);
    assert_eq!(func.body.len(), 1);
}

#[test]
fn test_statement_equality() {
    let stmt1 = Statement::Tell(EllexValue::String("Hello".to_string()));
    let stmt2 = Statement::Tell(EllexValue::String("Hello".to_string()));
    let stmt3 = Statement::Tell(EllexValue::String("Hi".to_string()));

    assert_eq!(stmt1, stmt2);
    assert_ne!(stmt1, stmt3);
}

#[test]
fn test_ellex_value_from_str() {
    let value = EllexValue::from_str("test string");
    match value {
        EllexValue::String(s) => assert_eq!(s, "test string"),
        _ => panic!("Expected string value"),
    }
}

#[test]
fn test_complex_statement_structures() {
    let repeat_stmt = Statement::Repeat(
        3,
        vec![
            Statement::Tell(EllexValue::String("Hello".to_string())),
            Statement::Ask("name".to_string(), Some("string".to_string())),
        ],
    );

    match repeat_stmt {
        Statement::Repeat(count, body) => {
            assert_eq!(count, 3);
            assert_eq!(body.len(), 2);
        }
        _ => panic!("Expected repeat statement"),
    }
}

#[test]
fn values_test_when_statement() {
    let when_stmt = Statement::When(
        "user_input".to_string(),
        EllexValue::String("yes".to_string()),
        vec![Statement::Tell(EllexValue::String("Great!".to_string()))],
        Some(vec![Statement::Tell(EllexValue::String("Okay".to_string()))]),
    );

    match when_stmt {
        Statement::When(var, condition, then_body, else_body) => {
            assert_eq!(var, "user_input");
            assert_eq!(condition, EllexValue::String("yes".to_string()));
            assert_eq!(then_body.len(), 1);
            assert!(else_body.is_some());
            assert_eq!(else_body.unwrap().len(), 1);
        }
        _ => panic!("Expected when statement"),
    }
}

#[test]
fn test_nested_structures() {
    let nested_list = EllexValue::List(vec![
        number(1.0),
        EllexValue::List(vec![EllexValue::String("nested".to_string()), number(2.0)]),
        EllexValue::String("end".to_string()),
    ]);

    match nested_list {
        EllexValue::List(items) => {
            assert_eq!(items.len(), 3);
            match &items[1] {
                EllexValue::List(inner_items) => {
                    assert_eq!(inner_items.len(), 2);
                }
                _ => panic!("Expected nested list"),
            }
        }
        _ => panic!("Expected list"),
    }
}

#[test]
fn numbers_compare_as_doubles() {
    assert_eq!(number(0.0), number(-0.0));
    assert_ne!(number(f64::NAN), number(f64::NAN));
    assert_eq!(number(1.5), number(1.5));
    assert_ne!(number(1.5), number(2.5));
    assert!(!number(0.0).identical_to(&number(-0.0)));
    assert!(number(f64::NAN).identical_to(&number(f64::NAN)));
    let list = EllexValue::List(vec![number(0.0), EllexValue::Nil]);
    let other = EllexValue::List(vec![number(-0.0), EllexValue::Nil]);
    assert!(list.same_as(&other));
    assert!(!list.identical_to(&other));
    assert_ne!(list, EllexValue::List(vec![number(0.0)]));
    assert_ne!(EllexValue::Nil, EllexValue::String(String::new()));
}

#[test]
fn copies_are_equal_to_what_they_copy() {
    let function = EllexFunction {
        name: "f".to_string(),
        body: vec![
            Statement::When(
                "x".to_string(),
                number(1.0),
                vec![Statement::Repeat(2, vec![Statement::Call("g".to_string())])],
                Some(vec![Statement::Assignment("y".to_string(), EllexValue::Nil)]),
            ),
            Statement::Ask("z".to_string(), None),
        ],
        params: vec!["a".to_string(), "b".to_string()],
    };
    let value = EllexValue::List(vec![EllexValue::Function(function.clone()), number(3.0)]);
    let copy = value.clone();
    assert_eq!(copy, value);
    assert!(copy.identical_to(&value));
    assert_eq!(function.duplicate(), function);
    let mut changed = function.clone();
    changed.params.pop();
    assert_ne!(changed, function);
    let mut renamed = function.clone();
    renamed.body[1] = Statement::Ask("z".to_string(), Some("number".to_string()));
    assert_ne!(renamed, function);
}

#[test]
fn bindings_behave_as_a_map() {
    let mut vars = Bindings::new();
    assert!(vars.is_empty());
    assert!(vars.get("x").is_none());
    vars.insert("x".to_string(), number(1.0));
    vars.insert("y".to_string(), EllexValue::Nil);
    vars.insert("x".to_string(), number(2.0));
    assert_eq!(vars.len(), 2);
    assert_eq!(vars.get("x"), Some(&number(2.0)));
    assert_eq!(vars.get("y"), Some(&EllexValue::Nil));
    assert!(vars.contains("y"));
    assert!(!vars.contains("z"));
    vars.clear();
    assert!(vars.is_empty());
}

#[test]
fn test_interpolate() {
    let mut vars = Bindings::new();
    vars.insert("name".to_string(), EllexValue::String("Alice".to_string()));
    let value = EllexValue::String("Hello, {name}!".to_string());
    assert_eq!(value.interpolate(&vars).to_string(), "Hello, Alice!");
}

#[test]
fn test_interpolate_multiple_variables() {
    let mut vars = Bindings::new();
    vars.insert("name".to_string(), EllexValue::String("Bob".to_string()));
    vars.insert("age".to_string(), number(25.0));
    let value = EllexValue::String("Hi {name}, you are {age} years old!".to_string());
    assert_eq!(value.interpolate(&vars).to_string(), "Hi Bob, you are 25 years old!");
}

#[test]
fn test_interpolate_no_variables() {
    let vars = Bindings::new();
    let value = EllexValue::String("Hello, world!".to_string());
    assert_eq!(value.interpolate(&vars).to_string(), "Hello, world!");
}

#[test]
fn test_interpolate_missing_variable() {
    let vars = Bindings::new();
    let value = EllexValue::String("Hello, {missing}!".to_string());
    assert_eq!(value.interpolate(&vars).to_string(), "Hello, {missing}!");
}

#[test]
fn test_ellex_value_display() {
    assert_eq!(EllexValue::String("test".to_string()).to_string(), "test");
    assert_eq!(number(42.5).to_string(), "42.5");
    assert_eq!(EllexValue::Nil.to_string(), "nil");

    let list = EllexValue::List(vec![number(1.0), EllexValue::String("hello".to_string())]);
    assert!(list.to_string().contains("1"));
    assert!(list.to_string().contains("hello"));
}

#[test]
fn values_are_shown_in_full() {
    let function = EllexFunction { name: "f".to_string(), body: vec![], params: vec![] };
    let list = EllexValue::List(vec![
        number(1.0),
        EllexValue::String("hello".to_string()),
        EllexValue::List(vec![]),
        EllexValue::List(vec![EllexValue::Nil, number(-0.25)]),
        EllexValue::Function(function),
    ]);
    assert_eq!(list.to_string(), "[1, hello, [], [nil, -0.25], <function>]");
    assert_eq!(EllexValue::List(vec![number(3.0)]).to_string(), "[3]");
    assert_eq!(number(0.1).to_string(), "0.1");
    assert_eq!(number(36.6).to_string(), "36.6");
}

#[test]
fn braces_are_filled_from_left_to_right() {
    let mut vars = Bindings::new();
    vars.insert("a".to_string(), EllexValue::String("{b}".to_string()));
    vars.insert("b".to_string(), number(2.0));
    vars.insert("".to_string(), EllexValue::Nil);
    let fill = |s: &str| EllexValue::String(s.to_string()).interpolate(&vars).to_string();
    assert_eq!(fill("{a}{b}"), "{b}2");
    assert_eq!(fill("{a} and {a}"), "{b} and {b}");
    assert_eq!(fill("{{b}}"), "{2}");
    assert_eq!(fill("{x{b}"), "{x2");
    assert_eq!(fill("{b"), "{b");
    assert_eq!(fill("b}"), "b}");
    assert_eq!(fill("{}"), "nil");
    assert_eq!(fill(""), "");
    assert_eq!(fill("é{b}é"), "é2é");
    assert_eq!(number(4.0).interpolate(&vars), number(4.0));
    assert_eq!(EllexValue::Nil.interpolate(&vars), EllexValue::Nil);
}

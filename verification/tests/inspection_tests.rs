use ellex_core::inspection::{debug_text, push_debugged};

// Values with the names of the library's, with the formatting that the
// language derives for them: what a debugger writes.
#[derive(Debug, Clone)]
enum EllexValue {
    String(String),
    Number(f64),
    List(Vec<EllexValue>),
    Function(EllexFunction),
    Nil,
}

#[derive(Debug, Clone)]
struct EllexFunction {
    name: String,
    body: Vec<Statement>,
    params: Vec<String>,
}

#[derive(Debug, Clone)]
enum Statement {
    Tell(EllexValue),
    Ask(String, Option<String>),
    Repeat(u32, Vec<Statement>),
    When(String, EllexValue, Vec<Statement>, Option<Vec<Statement>>),
    Call(String),
    Assignment(String, EllexValue),
}

fn value_of(v: &EllexValue) -> ellex_core::EllexValue {
    match v {
        EllexValue::String(s) => ellex_core::EllexValue::String(s.clone()),
        EllexValue::Number(x) => ellex_core::EllexValue::Number(x.to_bits()),
        EllexValue::List(items) => ellex_core::EllexValue::List(items.iter().map(value_of).collect()),
        EllexValue::Function(f) => ellex_core::EllexValue::Function(ellex_core::EllexFunction {
            name: f.name.clone(),
            body: block_of(&f.body),
            params: f.params.clone(),
        }),
        EllexValue::Nil => ellex_core::EllexValue::Nil,
    }
}

fn block_of(body: &[Statement]) -> Vec<ellex_core::Statement> {
    body.iter().map(statement_of).collect()
}

fn statement_of(s: &Statement) -> ellex_core::Statement {
    match s {
        Statement::Tell(v) => ellex_core::Statement::Tell(value_of(v)),
        Statement::Ask(name, hint) => ellex_core::Statement::Ask(name.clone(), hint.clone()),
        Statement::Repeat(times, body) => ellex_core::Statement::Repeat(*times, block_of(body)),
        Statement::When(name, value, then_body, else_body) => ellex_core::Statement::When(
            name.clone(),
            value_of(value),
            block_of(then_body),
            else_body.as_ref().map(|b| block_of(b)),
        ),
        Statement::Call(name) => ellex_core::Statement::Call(name.clone()),
        Statement::Assignment(name, v) => ellex_core::Statement::Assignment(name.clone(), value_of(v)),
    }
}

fn agrees(v: &EllexValue) -> String {
    let text = debug_text(&value_of(v));
    assert_eq!(text, format!("{:?}", v));
    text
}

fn sample_function() -> EllexValue {
    EllexValue::Function(EllexFunction {
        name: "greet".to_string(),
        body: vec![
            Statement::Tell(EllexValue::String("hi".to_string())),
            Statement::Ask("name".to_string(), None),
            Statement::Ask("age".to_string(), Some("number".to_string())),
            Statement::Repeat(3, vec![Statement::Call("f".to_string())]),
            Statement::When(
                "x".to_string(),
                EllexValue::Number(1.5),
                vec![Statement::Tell(EllexValue::Nil)],
                None,
            ),
            Statement::When(
                "y".to_string(),
                EllexValue::String("a".to_string()),
                vec![],
                Some(vec![Statement::Assignment(
                    "z".to_string(),
                    EllexValue::List(vec![EllexValue::Number(1.0), EllexValue::Nil]),
                )]),
            ),
        ],
        params: vec!["a".to_string(), "b".to_string()],
    })
}

#[test]
fn plain_values_are_debugged_by_kind() {
    assert_eq!(agrees(&EllexValue::Nil), "Nil");
    assert_eq!(agrees(&EllexValue::String("a".to_string())), "String(\"a\")");
    assert_eq!(agrees(&EllexValue::String(String::new())), "String(\"\")");
    assert_eq!(agrees(&EllexValue::Number(1.0)), "Number(1.0)");
    assert_eq!(agrees(&EllexValue::Number(-2.5)), "Number(-2.5)");
    assert_eq!(agrees(&EllexValue::Number(1e21)), "Number(1e21)");
    assert_eq!(agrees(&EllexValue::Number(f64::NAN)), "Number(NaN)");
    assert_eq!(agrees(&EllexValue::List(vec![])), "List([])");
    assert_eq!(
        agrees(&EllexValue::List(vec![
            EllexValue::Number(1.0),
            EllexValue::String("b".to_string()),
            EllexValue::List(vec![EllexValue::Nil]),
        ])),
        "List([Number(1.0), String(\"b\"), List([Nil])])"
    );
}

#[test]
fn debugged_texts_are_escaped() {
    assert_eq!(agrees(&EllexValue::String("a\"b".to_string())), "String(\"a\\\"b\")");
    assert_eq!(agrees(&EllexValue::String("line\nnext\ttab\\".to_string())), "String(\"line\\nnext\\ttab\\\\\")");
    assert_eq!(agrees(&EllexValue::String("it's".to_string())), "String(\"it's\")");
    assert_eq!(agrees(&EllexValue::String("é🐢\u{7}".to_string())), "String(\"é🐢\\u{7}\")");
}

#[test]
fn functions_are_debugged_with_their_bodies() {
    assert_eq!(
        agrees(&sample_function()),
        "Function(EllexFunction { name: \"greet\", body: [Tell(String(\"hi\")), \
         Ask(\"name\", None), Ask(\"age\", Some(\"number\")), Repeat(3, [Call(\"f\")]), \
         When(\"x\", Number(1.5), [Tell(Nil)], None), \
         When(\"y\", String(\"a\"), [], Some([Assignment(\"z\", List([Number(1.0), Nil]))]))], \
         params: [\"a\", \"b\"] })"
    );
    assert_eq!(
        agrees(&EllexValue::Function(EllexFunction {
            name: String::new(),
            body: vec![Statement::Repeat(0, vec![]), Statement::Repeat(u32::MAX, vec![])],
            params: vec![],
        })),
        "Function(EllexFunction { name: \"\", body: [Repeat(0, []), Repeat(4294967295, [])], params: [] })"
    );
}

#[test]
fn debugged_values_are_appended() {
    let mut out = "v = ".to_string();
    push_debugged(&mut out, &ellex_core::EllexValue::List(vec![ellex_core::EllexValue::Nil]));
    assert_eq!(out, "v = List([Nil])");
}

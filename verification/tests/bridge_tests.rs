use ellex_core::ellex_minielixir_bridge::{
    parse_ellex_simple, parse_line, read_count, ElixirMiniElixirBridge, EllexMiniElixirBridge,
};
use ellex_core::json::{statement_to_json, Json};
use ellex_core::minielixir::{BinaryOperator, MiniElixirExpr};
use ellex_core::{EllexError, EllexValue, Statement};

fn number(x: f64) -> EllexValue {
    EllexValue::Number(x.to_bits())
}

#[test]
fn test_statement_to_minielixir() {
    let bridge = EllexMiniElixirBridge::new();
    let stmt = Statement::Tell(EllexValue::String("test".to_string()));
    let minielixir_expr = bridge.statement_to_minielixir(&stmt).unwrap();

    match minielixir_expr {
        MiniElixirExpr::Call { function, args } => {
            assert_eq!(function, "to_string");
            assert_eq!(args.len(), 1);
        }
        _ => panic!("Expected function call"),
    }
}

#[test]
fn test_value_conversion() {
    let bridge = EllexMiniElixirBridge::new();

    let ellex_val = number(3.14);
    let minielixir_expr = bridge.ellex_value_to_minielixir(&ellex_val).unwrap();

    match minielixir_expr {
        MiniElixirExpr::Float(f) => assert_eq!(f64::from_bits(f), 3.14),
        _ => panic!("Expected float"),
    }
}

#[test]
fn test_when_statement_conversion() {
    let bridge = EllexMiniElixirBridge::new();
    let stmt = Statement::When(
        "x".to_string(),
        EllexValue::String("yes".to_string()),
        vec![Statement::Tell(EllexValue::String("Match!".to_string()))],
        None,
    );

    let minielixir_expr = bridge.statement_to_minielixir(&stmt).unwrap();

    match minielixir_expr {
        MiniElixirExpr::If { condition, then_branch: _, else_branch } => {
            assert!(matches!(condition.as_ref(), MiniElixirExpr::BinaryOp { .. }));
            // then_branch is a Box, so it's always "some"
            assert!(else_branch.is_none());
        }
        _ => panic!("Expected if expression"),
    }
}

#[test]
fn the_outside_back_end_is_never_available() {
    assert!(!ElixirMiniElixirBridge::new().is_available());
    assert!(!ElixirMiniElixirBridge::default().is_available());
}

#[test]
fn statements_become_expressions_as_documented() {
    let bridge = EllexMiniElixirBridge::default();
    let text = |s: &str| MiniElixirExpr::String(s.to_string());
    let program = vec![
        Statement::Ask("name".to_string(), None),
        Statement::Assignment("n".to_string(), number(-2.0)),
        Statement::Repeat(
            2,
            vec![
                Statement::Call("step".to_string()),
                Statement::Tell(EllexValue::List(vec![number(1.0), EllexValue::Nil])),
            ],
        ),
        Statement::When(
            "n".to_string(),
            number(0.5),
            vec![Statement::Call("a".to_string())],
            Some(vec![]),
        ),
    ];
    let exprs = bridge.statements_to_minielixir(&program).unwrap();
    let call = |name: &str, args: Vec<MiniElixirExpr>| MiniElixirExpr::Call {
        function: name.to_string(),
        args,
    };
    assert_eq!(exprs[0], call("get_input", vec![text("Enter name: ")]));
    assert_eq!(exprs[1], call("assign", vec![text("n"), MiniElixirExpr::Integer(-2)]));
    assert_eq!(
        exprs[2],
        call(
            "repeat",
            vec![
                MiniElixirExpr::Integer(2),
                MiniElixirExpr::Block(vec![
                    call("step", vec![]),
                    call(
                        "to_string",
                        vec![MiniElixirExpr::List(vec![
                            MiniElixirExpr::Integer(1),
                            MiniElixirExpr::Nil
                        ])]
                    ),
                ]),
            ]
        )
    );
    assert_eq!(
        exprs[3],
        MiniElixirExpr::If {
            condition: Box::new(MiniElixirExpr::BinaryOp {
                op: BinaryOperator::Eq,
                left: Box::new(MiniElixirExpr::Variable("n".to_string())),
                right: Box::new(MiniElixirExpr::Float(0.5f64.to_bits())),
            }),
            then_branch: Box::new(call("a", vec![])),
            else_branch: Some(Box::new(MiniElixirExpr::Block(vec![]))),
        }
    );
}

#[test]
fn rendered_statements_run_on_the_cached_runtime() {
    let mut bridge = EllexMiniElixirBridge::new();
    let tell = |v: EllexValue| vec![Statement::Tell(v)];
    assert_eq!(
        bridge.execute_statements(&tell(EllexValue::String("Hello World".to_string()))).unwrap(),
        EllexValue::String("Hello World".to_string())
    );
    assert_eq!(
        bridge.execute_statements(&tell(number(42.0))).unwrap(),
        EllexValue::String("42".to_string())
    );
    let two = vec![Statement::Tell(number(1.0)), Statement::Tell(number(2.0))];
    assert_eq!(bridge.execute_statements(&two).unwrap(), EllexValue::String("2".to_string()));
    assert_eq!(bridge.execute_statements(&vec![]).unwrap(), EllexValue::Nil);
    assert!(matches!(
        bridge.execute_statements(&vec![Statement::Call("f".to_string())]),
        Err(EllexError::LogicError { message }) if message == "Unknown function 'f'"
    ));
    bridge.clear_caches();
}

#[test]
fn test_bridge_basic_tell() {
    let mut bridge = EllexMiniElixirBridge::new();
    let result = bridge.execute_ellex_code("tell \"Hello World\"").unwrap();
    assert_eq!(result, EllexValue::String("Hello World".to_string()));
}

#[test]
fn test_bridge_number_tell() {
    let mut bridge = EllexMiniElixirBridge::new();
    let result = bridge.execute_ellex_code("tell 42").unwrap();
    assert_eq!(result, EllexValue::String("42".to_string()));
}

fn line(s: &str) -> Option<Statement> {
    parse_line(&s.chars().collect())
}

fn text(s: &str) -> EllexValue {
    EllexValue::String(s.to_string())
}

#[test]
fn a_line_writes_at_most_one_statement() {
    assert_eq!(line("tell \"hi there\""), Some(Statement::Tell(text("hi there"))));
    assert_eq!(line("tell    padded  "), Some(Statement::Tell(text("padded"))));
    assert_eq!(line("tell 2.5"), Some(Statement::Tell(number(2.5))));
    assert_eq!(line("tell -7"), Some(Statement::Tell(number(-7.0))));
    assert_eq!(line("tell \""), Some(Statement::Tell(text("\""))));
    assert_eq!(line("tell \"\""), Some(Statement::Tell(text(""))));
    assert_eq!(line("tell "), Some(Statement::Tell(text(""))));
    assert_eq!(line("ask \"name\""), Some(Statement::Ask("name".to_string(), None)));
    assert_eq!(line("ask name"), None);
    assert_eq!(line("repeat 3 times"), Some(Statement::Repeat(3, vec![])));
    assert_eq!(line("repeat   12   times do"), Some(Statement::Repeat(12, vec![])));
    assert_eq!(line("repeat 4294967295 times"), Some(Statement::Repeat(u32::MAX, vec![])));
    assert_eq!(line("repeat 4294967296 times"), None);
    assert_eq!(line("repeat times"), None);
    assert_eq!(line("repeat x times"), None);
    assert_eq!(line("repeat 3"), None);
    assert_eq!(line("draw_square2"), Some(Statement::Call("draw_square2".to_string())));
    assert_eq!(line("tell"), Some(Statement::Call("tell".to_string())));
    assert_eq!(line("héllo"), Some(Statement::Call("héllo".to_string())));
    assert_eq!(line("two words"), None);
    assert_eq!(line("x = 1"), None);
}

#[test]
fn counts_are_digits_alone() {
    let count = |s: &str| read_count(&s.chars().collect());
    assert_eq!(count("0"), Some(0));
    assert_eq!(count("007"), Some(7));
    assert_eq!(count("4294967295"), Some(u32::MAX));
    assert_eq!(count("4294967296"), None);
    assert_eq!(count(""), None);
    assert_eq!(count("+3"), None);
    assert_eq!(count("-3"), None);
    assert_eq!(count("3.0"), None);
    assert_eq!(count("3 "), None);
    assert_eq!(count("99999999999999999999"), None);
}

#[test]
fn code_is_read_line_by_line() {
    let code = "# a comment\n\n  tell \"one\"  \r\nnot a statement here\n   # another\nforward\nrepeat 2 times\ntell 3";
    assert_eq!(
        parse_ellex_simple(code),
        vec![
            Statement::Tell(text("one")),
            Statement::Call("forward".to_string()),
            Statement::Repeat(2, vec![]),
            Statement::Tell(number(3.0)),
        ]
    );
    assert_eq!(parse_ellex_simple(""), vec![]);
    assert_eq!(parse_ellex_simple("\n\n"), vec![]);
    assert_eq!(parse_ellex_simple("tell 1\n"), vec![Statement::Tell(number(1.0))]);
    assert_eq!(parse_ellex_simple("\ntell 1"), vec![Statement::Tell(number(1.0))]);
}

#[test]
fn several_lines_run_as_a_block() {
    let mut bridge = EllexMiniElixirBridge::new();
    let result = bridge.execute_ellex_code("tell \"first\"\ntell \"last\"").unwrap();
    assert_eq!(result, text("last"));
    // No statement at all is an empty block.
    assert_eq!(bridge.execute_ellex_code("# nothing").unwrap(), EllexValue::Nil);
    // A call names a function that the expression language does not have.
    assert!(matches!(
        bridge.execute_ellex_code("forward"),
        Err(EllexError::LogicError { message }) if message == "Unknown function 'forward'"
    ));
}

fn to_value(json: &Json) -> serde_json::Value {
    match json {
        Json::Null => serde_json::Value::Null,
        Json::Text(t) => serde_json::Value::String(t.clone()),
        Json::Integer(n) => serde_json::Value::from(*n),
        Json::Number(bits) => serde_json::Value::from(f64::from_bits(*bits)),
        Json::Array(items) => serde_json::Value::Array(items.iter().map(to_value).collect()),
        Json::Object(members) => serde_json::Value::Object(
            members.iter().map(|(name, value)| (name.clone(), to_value(value))).collect(),
        ),
    }
}

#[test]
fn test_ellex_to_json() {
    let bridge = EllexMiniElixirBridge::new();
    let statements = vec![Statement::Tell(EllexValue::String("Hello".to_string()))];

    let json_ast: Vec<serde_json::Value> =
        bridge.ellex_to_json(&statements).unwrap().iter().map(to_value).collect();
    assert_eq!(json_ast.len(), 1);

    let json_stmt = &json_ast[0];
    assert_eq!(json_stmt["op"], "call");
    assert_eq!(json_stmt["module"], "Kernel");
    assert_eq!(json_stmt["function"], "inspect");
}

#[test]
fn every_statement_has_its_tree() {
    let tree = |s: Statement| to_value(&statement_to_json(&s)).to_string();
    assert_eq!(
        tree(Statement::Assignment("x".to_string(), number(1.5))),
        r#"{"op":"assign","value":1.5,"variable":"x"}"#
    );
    assert_eq!(
        tree(Statement::Ask("name".to_string(), None)),
        r#"{"op":"assign","value":{"args":["Enter name: "],"function":"gets","module":"IO","op":"call"},"var":"name"}"#
    );
    assert_eq!(
        tree(Statement::Repeat(3, vec![Statement::Call("f".to_string())])),
        r#"{"args":[{"end":3,"op":"range","start":1},{"args":["_"],"body":[{"args":[],"function":"f","op":"call"}],"op":"fn"}],"function":"each","module":"Enum","op":"call"}"#
    );
    let list = EllexValue::List(vec![EllexValue::Nil, text("a")]);
    assert_eq!(
        tree(Statement::When("v".to_string(), list, vec![], None)),
        r#"{"condition":{"left":{"var":"v"},"op":"==","right":[null,"a"]},"else":null,"op":"if","then":[]}"#
    );
    let f = ellex_core::EllexFunction {
        name: "g".to_string(),
        body: vec![],
        params: vec!["a".to_string(), "b".to_string()],
    };
    assert_eq!(
        tree(Statement::When("v".to_string(), EllexValue::Function(f), vec![], Some(vec![]))),
        r#"{"condition":{"left":{"var":"v"},"op":"==","right":{"name":"g","params":["a","b"],"type":"function"}},"else":[],"op":"if","then":[]}"#
    );
    let tell = statement_to_json(&Statement::Tell(text("x")));
    assert!(matches!(tell.get("op"), Some(Json::Text(t)) if t == "call"));
    assert!(tell.get("missing").is_none());
    assert!(Json::Null.get("op").is_none());
}

#[test]
fn expressions_stand_for_values_without_being_evaluated() {
    let bridge = EllexMiniElixirBridge::new();
    let value = |e: MiniElixirExpr| bridge.minielixir_to_ellex_value(&e);
    assert_eq!(value(MiniElixirExpr::String("s".to_string())), Some(text("s")));
    assert_eq!(value(MiniElixirExpr::Integer(-7)), Some(number(-7.0)));
    assert_eq!(value(MiniElixirExpr::Integer(i64::MIN)), Some(number(i64::MIN as f64)));
    assert_eq!(value(MiniElixirExpr::Float(0.1f64.to_bits())), Some(number(0.1)));
    assert_eq!(value(MiniElixirExpr::Boolean(true)), Some(text("true")));
    assert_eq!(value(MiniElixirExpr::Nil), Some(EllexValue::Nil));
    assert_eq!(value(MiniElixirExpr::Atom("ok".to_string())), Some(text(":ok")));
    assert_eq!(value(MiniElixirExpr::Variable("x".to_string())), Some(text("x")));
    let call = MiniElixirExpr::Call {
        function: "f".to_string(),
        args: vec![
            MiniElixirExpr::Integer(1),
            MiniElixirExpr::String("a".to_string()),
            MiniElixirExpr::List(vec![MiniElixirExpr::Nil, MiniElixirExpr::Float(2.5f64.to_bits())]),
        ],
    };
    assert_eq!(value(call.clone()), Some(text("f(1, \"a\", [nil, 2.5])")));
    let list = MiniElixirExpr::List(vec![MiniElixirExpr::Integer(1), call]);
    assert_eq!(
        value(list),
        Some(EllexValue::List(vec![number(1.0), text("f(1, \"a\", [nil, 2.5])")]))
    );
    let sum = MiniElixirExpr::BinaryOp {
        op: BinaryOperator::Add,
        left: Box::new(MiniElixirExpr::Integer(1)),
        right: Box::new(MiniElixirExpr::Integer(2)),
    };
    assert_eq!(value(sum.clone()), None);
    assert_eq!(value(MiniElixirExpr::List(vec![MiniElixirExpr::Nil, sum])), None);
}

#[test]
fn the_bridge_reports_the_figures_of_its_runtime() {
    let mut bridge = EllexMiniElixirBridge::new();
    bridge.execute_ellex_code("tell 42").unwrap();
    bridge.execute_ellex_code("tell 42").unwrap();
    let stats = bridge.performance_stats();
    assert_eq!(stats.total_evaluations, 2);
    assert_eq!(stats.cached_expressions, 1);
    let analysis = bridge.cache_analysis();
    assert_eq!(analysis.hot_expressions.len() + analysis.cold_expressions.len(), 1);
}
